//! Abstract syntax tree: two variant families, statements and expressions,
//! forming a tree by ownership, plus the `Program` root.

use vstd::prelude::*;
use vstd::string::StringExecFns;
use crate::token;
use crate::int_to_string;
use crate::spec_int_dec;

verus! {

#[derive(Debug, PartialEq)]
pub enum Statement {
    LetStatement(LetStatement),
    ExpressionStatement(ExpressionStatement),
    ReturnStatement(ReturnStatement),
    BlockStatement(BlockStatement),
}

#[derive(Debug, PartialEq)]
pub enum Expression {
    Identifier(Identifier),
    IntegerLiteral(IntegerLiteral),
    BooleanLiteral(BooleanLiteral),
    StringLiteral(StringLiteral),
    FunctionLiteral(FunctionLiteral),
    InfixExpression(InfixExpression),
    PrefixExpression(PrefixExpression),
    IfExpression(IfExpression),
    CallExpression(CallExpression),
}

#[derive(Debug, PartialEq)]
pub struct Identifier {
    pub token: token::Token,
    pub value: String,
}

#[derive(Debug, PartialEq)]
pub struct IntegerLiteral {
    pub token: token::Token,
    pub value: i64,
}

#[derive(Debug, PartialEq)]
pub struct BooleanLiteral {
    pub token: token::Token,
    pub value: bool,
}

#[derive(Debug, PartialEq)]
pub struct StringLiteral {
    pub token: token::Token,
    pub value: String,
}

#[derive(Debug, PartialEq)]
pub struct FunctionLiteral {
    pub token: token::Token,
    pub ident: Option<Identifier>,
    pub parameters: Vec<Identifier>,
    pub body: BlockStatement,
}

#[derive(Debug, PartialEq)]
pub struct LetStatement {
    pub token: token::Token,
    pub identifier: Identifier,
    pub value: Option<Expression>,
}

#[derive(Debug, PartialEq)]
pub struct ReturnStatement {
    pub token: token::Token,
    pub value: Option<Expression>,
}

#[derive(Debug, PartialEq)]
pub struct BlockStatement {
    pub token: token::Token,
    pub statements: Vec<Statement>,
}

#[derive(Debug, PartialEq)]
pub struct ExpressionStatement {
    pub token: token::Token,
    pub expression: Option<Expression>,
}

#[derive(Debug, PartialEq)]
pub struct PrefixExpression {
    pub token: token::Token,
    pub right: Box<Expression>,
}

#[derive(Debug, PartialEq)]
pub struct InfixExpression {
    pub token: token::Token,
    pub left: Box<Expression>,
    pub operator: token::Token,
    pub right: Box<Expression>,
}

#[derive(Debug, PartialEq)]
pub struct IfExpression {
    pub token: token::Token,
    pub condition: Box<Expression>,
    pub consequence: BlockStatement,
    pub alternative: Option<BlockStatement>,
}

#[derive(Debug, PartialEq)]
pub struct CallExpression {
    pub token: token::Token,
    pub function: Box<Expression>,
    pub arguments: Vec<Expression>,
}

#[derive(Debug)]
pub enum Node {
    Program(Program),
    Statement(Statement),
    Expression(Expression),
}

#[derive(Debug)]
pub struct Program {
    pub statements: Vec<Statement>,
}

// ------------------------------------------------------------------
// Mathematical models of the tree: the same shape with `Seq` in place
// of `Vec` and `Seq<char>` in place of `String`.
// ------------------------------------------------------------------

pub struct IdentifierV {
    pub token: token::TokenModel,
    pub value: Seq<char>,
}

pub struct IntegerLiteralV {
    pub token: token::TokenModel,
    pub value: i64,
}

pub struct BooleanLiteralV {
    pub token: token::TokenModel,
    pub value: bool,
}

pub struct StringLiteralV {
    pub token: token::TokenModel,
    pub value: Seq<char>,
}

pub struct FunctionLiteralV {
    pub token: token::TokenModel,
    pub ident: Option<IdentifierV>,
    pub parameters: Seq<IdentifierV>,
    pub body: BlockStatementV,
}

pub struct LetStatementV {
    pub token: token::TokenModel,
    pub identifier: IdentifierV,
    pub value: Option<ExpressionV>,
}

pub struct ReturnStatementV {
    pub token: token::TokenModel,
    pub value: Option<ExpressionV>,
}

pub struct BlockStatementV {
    pub token: token::TokenModel,
    pub statements: Seq<StatementV>,
}

pub struct ExpressionStatementV {
    pub token: token::TokenModel,
    pub expression: Option<ExpressionV>,
}

pub struct PrefixExpressionV {
    pub token: token::TokenModel,
    pub right: Box<ExpressionV>,
}

pub struct InfixExpressionV {
    pub token: token::TokenModel,
    pub left: Box<ExpressionV>,
    pub operator: token::TokenModel,
    pub right: Box<ExpressionV>,
}

pub struct IfExpressionV {
    pub token: token::TokenModel,
    pub condition: Box<ExpressionV>,
    pub consequence: BlockStatementV,
    pub alternative: Option<BlockStatementV>,
}

pub struct CallExpressionV {
    pub token: token::TokenModel,
    pub function: Box<ExpressionV>,
    pub arguments: Seq<ExpressionV>,
}

pub enum StatementV {
    LetStatement(LetStatementV),
    ExpressionStatement(ExpressionStatementV),
    ReturnStatement(ReturnStatementV),
    BlockStatement(BlockStatementV),
}

pub enum ExpressionV {
    Identifier(IdentifierV),
    IntegerLiteral(IntegerLiteralV),
    BooleanLiteral(BooleanLiteralV),
    StringLiteral(StringLiteralV),
    FunctionLiteral(FunctionLiteralV),
    InfixExpression(InfixExpressionV),
    PrefixExpression(PrefixExpressionV),
    IfExpression(IfExpressionV),
    CallExpression(CallExpressionV),
}

pub struct ProgramV {
    pub statements: Seq<StatementV>,
}

pub enum NodeV {
    Program(ProgramV),
    Statement(StatementV),
    Expression(ExpressionV),
}

pub open spec fn ident_v(i: Identifier) -> IdentifierV {
    IdentifierV { token: i.token@, value: i.value@ }
}

pub open spec fn intlit_v(il: IntegerLiteral) -> IntegerLiteralV {
    IntegerLiteralV { token: il.token@, value: il.value }
}

pub open spec fn boollit_v(bl: BooleanLiteral) -> BooleanLiteralV {
    BooleanLiteralV { token: bl.token@, value: bl.value }
}

pub open spec fn strlit_v(sl: StringLiteral) -> StringLiteralV {
    StringLiteralV { token: sl.token@, value: sl.value@ }
}

pub open spec fn letstmt_v(ls: LetStatement) -> LetStatementV
    decreases ls,
{
    LetStatementV {
        token: ls.token@,
        identifier: ident_v(ls.identifier),
        value: match ls.value {
            Some(e) => Some(expr_v(e)),
            None => None,
        },
    }
}

pub open spec fn retstmt_v(rs: ReturnStatement) -> ReturnStatementV
    decreases rs,
{
    ReturnStatementV {
        token: rs.token@,
        value: match rs.value {
            Some(e) => Some(expr_v(e)),
            None => None,
        },
    }
}

pub open spec fn exprstmt_v(es: ExpressionStatement) -> ExpressionStatementV
    decreases es,
{
    ExpressionStatementV {
        token: es.token@,
        expression: match es.expression {
            Some(e) => Some(expr_v(e)),
            None => None,
        },
    }
}

pub open spec fn fnlit_v(fl: FunctionLiteral) -> FunctionLiteralV
    decreases fl,
{
    FunctionLiteralV {
        token: fl.token@,
        ident: match fl.ident {
            Some(i) => Some(ident_v(i)),
            None => None,
        },
        parameters: fl.parameters@.map_values(|i: Identifier| ident_v(i)),
        body: block_v(fl.body),
    }
}

pub open spec fn prefix_v(pe: PrefixExpression) -> PrefixExpressionV
    decreases pe,
{
    PrefixExpressionV { token: pe.token@, right: Box::new(expr_v(*pe.right)) }
}

pub open spec fn infix_v(ie: InfixExpression) -> InfixExpressionV
    decreases ie,
{
    InfixExpressionV {
        token: ie.token@,
        left: Box::new(expr_v(*ie.left)),
        operator: ie.operator@,
        right: Box::new(expr_v(*ie.right)),
    }
}

pub open spec fn ifexpr_v(ife: IfExpression) -> IfExpressionV
    decreases ife,
{
    IfExpressionV {
        token: ife.token@,
        condition: Box::new(expr_v(*ife.condition)),
        consequence: block_v(ife.consequence),
        alternative: match ife.alternative {
            Some(alt) => Some(block_v(alt)),
            None => None,
        },
    }
}

pub open spec fn callexpr_v(ce: CallExpression) -> CallExpressionV
    decreases ce,
{
    CallExpressionV {
        token: ce.token@,
        function: Box::new(expr_v(*ce.function)),
        arguments: expr_seq_v(ce.arguments@),
    }
}

pub open spec fn stmt_v(s: Statement) -> StatementV
    decreases s,
{
    match s {
        Statement::LetStatement(ls) => StatementV::LetStatement(letstmt_v(ls)),
        Statement::ExpressionStatement(es) => StatementV::ExpressionStatement(exprstmt_v(es)),
        Statement::ReturnStatement(rs) => StatementV::ReturnStatement(retstmt_v(rs)),
        Statement::BlockStatement(bs) => StatementV::BlockStatement(block_v(bs)),
    }
}

pub open spec fn block_v(b: BlockStatement) -> BlockStatementV
    decreases b,
{
    BlockStatementV { token: b.token@, statements: stmt_seq_v(b.statements@) }
}

pub open spec fn stmt_seq_v(v: Seq<Statement>) -> Seq<StatementV>
    decreases v,
{
    if v.len() == 0 {
        Seq::empty()
    } else {
        seq![stmt_v(v[0])] + stmt_seq_v(v.skip(1))
    }
}

pub open spec fn expr_seq_v(v: Seq<Expression>) -> Seq<ExpressionV>
    decreases v,
{
    if v.len() == 0 {
        Seq::empty()
    } else {
        seq![expr_v(v[0])] + expr_seq_v(v.skip(1))
    }
}

pub open spec fn expr_v(e: Expression) -> ExpressionV
    decreases e,
{
    match e {
        Expression::Identifier(i) => ExpressionV::Identifier(ident_v(i)),
        Expression::IntegerLiteral(il) => ExpressionV::IntegerLiteral(intlit_v(il)),
        Expression::BooleanLiteral(bl) => ExpressionV::BooleanLiteral(boollit_v(bl)),
        Expression::StringLiteral(sl) => ExpressionV::StringLiteral(strlit_v(sl)),
        Expression::FunctionLiteral(fl) => ExpressionV::FunctionLiteral(fnlit_v(fl)),
        Expression::InfixExpression(ie) => ExpressionV::InfixExpression(infix_v(ie)),
        Expression::PrefixExpression(pe) => ExpressionV::PrefixExpression(prefix_v(pe)),
        Expression::IfExpression(ife) => ExpressionV::IfExpression(ifexpr_v(ife)),
        Expression::CallExpression(ce) => ExpressionV::CallExpression(callexpr_v(ce)),
    }
}

impl View for Identifier {
    type V = IdentifierV;

    open spec fn view(&self) -> IdentifierV {
        ident_v(*self)
    }
}

impl View for Statement {
    type V = StatementV;

    open spec fn view(&self) -> StatementV {
        stmt_v(*self)
    }
}

impl View for Expression {
    type V = ExpressionV;

    open spec fn view(&self) -> ExpressionV {
        expr_v(*self)
    }
}

impl View for BlockStatement {
    type V = BlockStatementV;

    open spec fn view(&self) -> BlockStatementV {
        block_v(*self)
    }
}

impl View for Program {
    type V = ProgramV;

    open spec fn view(&self) -> ProgramV {
        ProgramV { statements: stmt_seq_v(self.statements@) }
    }
}

impl View for Node {
    type V = NodeV;

    open spec fn view(&self) -> NodeV {
        match *self {
            Node::Program(ref p) => NodeV::Program(p@),
            Node::Statement(ref s) => NodeV::Statement(stmt_v(*s)),
            Node::Expression(ref e) => NodeV::Expression(expr_v(*e)),
        }
    }
}

/// The statement-sequence model maps the element model pointwise.
pub proof fn lemma_stmt_seq_v(v: Seq<Statement>)
    ensures
        stmt_seq_v(v).len() == v.len(),
        forall|i: int| 0 <= i < v.len() ==> stmt_seq_v(v)[i] == stmt_v(v[i]),
    decreases v.len(),
{
    if v.len() > 0 {
        lemma_stmt_seq_v(v.skip(1));
        assert forall|i: int| 0 <= i < v.len() implies stmt_seq_v(v)[i] == stmt_v(v[i]) by {
            if i > 0 {
                assert(v.skip(1)[i - 1] == v[i]);
            }
        }
    }
}

/// The expression-sequence model maps the element model pointwise.
pub proof fn lemma_expr_seq_v(v: Seq<Expression>)
    ensures
        expr_seq_v(v).len() == v.len(),
        forall|i: int| 0 <= i < v.len() ==> expr_seq_v(v)[i] == expr_v(v[i]),
    decreases v.len(),
{
    if v.len() > 0 {
        lemma_expr_seq_v(v.skip(1));
        assert forall|i: int| 0 <= i < v.len() implies expr_seq_v(v)[i] == expr_v(v[i]) by {
            if i > 0 {
                assert(v.skip(1)[i - 1] == v[i]);
            }
        }
    }
}

// ------------------------------------------------------------------
// Well-formedness of the tree: operator tokens stored in infix and
// prefix nodes are always among the operators allowed there.
// ------------------------------------------------------------------

/// The binary operators an infix node may carry.
pub open spec fn is_infix_op(k: token::Kind) -> bool {
    ||| k == token::Kind::Plus
    ||| k == token::Kind::Minus
    ||| k == token::Kind::Divide
    ||| k == token::Kind::Product
    ||| k == token::Kind::Mod
    ||| k == token::Kind::EQ
    ||| k == token::Kind::NOT_EQ
    ||| k == token::Kind::LT
    ||| k == token::Kind::LT_OR_EQ
    ||| k == token::Kind::GT
    ||| k == token::Kind::GT_OR_EQ
    ||| k == token::Kind::Bit_Or
    ||| k == token::Kind::Bit_And
    ||| k == token::Kind::Or
    ||| k == token::Kind::And
}

/// The operators a prefix node may carry.
pub open spec fn is_prefix_op(k: token::Kind) -> bool {
    k == token::Kind::Bang || k == token::Kind::Minus
}

pub open spec fn wf_expr(e: ExpressionV) -> bool
    decreases e,
{
    match e {
        ExpressionV::Identifier(_) => true,
        ExpressionV::IntegerLiteral(_) => true,
        ExpressionV::BooleanLiteral(_) => true,
        ExpressionV::StringLiteral(_) => true,
        ExpressionV::FunctionLiteral(fl) => wf_stmt_seq(fl.body.statements),
        ExpressionV::InfixExpression(ie) => is_infix_op(ie.operator.kind) && wf_expr(*ie.left)
            && wf_expr(*ie.right),
        ExpressionV::PrefixExpression(pe) => is_prefix_op(pe.token.kind) && wf_expr(*pe.right),
        ExpressionV::IfExpression(ife) => wf_expr(*ife.condition) && wf_stmt_seq(
            ife.consequence.statements,
        ) && (match ife.alternative {
            Some(alt) => wf_stmt_seq(alt.statements),
            None => true,
        }),
        ExpressionV::CallExpression(ce) => wf_expr(*ce.function) && wf_expr_seq(ce.arguments),
    }
}

pub open spec fn wf_stmt(s: StatementV) -> bool
    decreases s,
{
    match s {
        StatementV::LetStatement(ls) => match ls.value {
            Some(e) => wf_expr(e),
            None => true,
        },
        StatementV::ExpressionStatement(es) => match es.expression {
            Some(e) => wf_expr(e),
            None => true,
        },
        StatementV::ReturnStatement(rs) => match rs.value {
            Some(e) => wf_expr(e),
            None => true,
        },
        StatementV::BlockStatement(bs) => wf_stmt_seq(bs.statements),
    }
}

pub open spec fn wf_stmt_seq(v: Seq<StatementV>) -> bool
    decreases v,
{
    forall|i: int| 0 <= i < v.len() ==> wf_stmt(#[trigger] v[i])
}

pub open spec fn wf_expr_seq(v: Seq<ExpressionV>) -> bool
    decreases v,
{
    forall|i: int| 0 <= i < v.len() ==> wf_expr(#[trigger] v[i])
}

/// A well-formed statement appended to a well-formed sequence keeps it
/// well formed.
pub proof fn lemma_wf_stmt_seq_push(v: Seq<StatementV>, x: StatementV)
    requires
        wf_stmt_seq(v),
        wf_stmt(x),
    ensures
        wf_stmt_seq(v.push(x)),
{
    assert forall|i: int| 0 <= i < v.push(x).len() implies wf_stmt(#[trigger] v.push(x)[i]) by {
        if i < v.len() {
            assert(v.push(x)[i] == v[i]);
        } else {
            assert(v.push(x)[i] == x);
        }
    }
}

/// A well-formed expression appended to a well-formed sequence keeps it
/// well formed.
pub proof fn lemma_wf_expr_seq_push(v: Seq<ExpressionV>, x: ExpressionV)
    requires
        wf_expr_seq(v),
        wf_expr(x),
    ensures
        wf_expr_seq(v.push(x)),
{
    assert forall|i: int| 0 <= i < v.push(x).len() implies wf_expr(#[trigger] v.push(x)[i]) by {
        if i < v.len() {
            assert(v.push(x)[i] == v[i]);
        } else {
            assert(v.push(x)[i] == x);
        }
    }
}

// ------------------------------------------------------------------
// Structure-preserving deep copies (the tree is immutable once parsed;
// the evaluator copies the parts a closure captures).
// ------------------------------------------------------------------

impl Identifier {
    /// Structure-preserving copy.
    pub fn duplicate(&self) -> (r: Identifier)
        ensures
            r@ == (*self)@,
    {
        Identifier { token: self.token.duplicate(), value: self.value.clone() }
    }
}

impl Statement {
    /// Structure-preserving deep copy.
    pub fn duplicate(&self) -> (r: Statement)
        ensures
            r@ == (*self)@,
        decreases *self, 1int,
    {
        match self {
            Statement::LetStatement(ls) => Statement::LetStatement(
                LetStatement {
                    token: ls.token.duplicate(),
                    identifier: ls.identifier.duplicate(),
                    value: match &ls.value {
                        Some(e) => Some(e.duplicate()),
                        None => None,
                    },
                },
            ),
            Statement::ExpressionStatement(es) => Statement::ExpressionStatement(
                ExpressionStatement {
                    token: es.token.duplicate(),
                    expression: match &es.expression {
                        Some(e) => Some(e.duplicate()),
                        None => None,
                    },
                },
            ),
            Statement::ReturnStatement(rs) => Statement::ReturnStatement(
                ReturnStatement {
                    token: rs.token.duplicate(),
                    value: match &rs.value {
                        Some(e) => Some(e.duplicate()),
                        None => None,
                    },
                },
            ),
            Statement::BlockStatement(bs) => Statement::BlockStatement(bs.duplicate()),
        }
    }
}

impl BlockStatement {
    /// Structure-preserving deep copy.
    pub fn duplicate(&self) -> (r: BlockStatement)
        ensures
            r@ == (*self)@,
        decreases *self, 0int,
    {
        let mut statements: Vec<Statement> = Vec::new();
        let mut i: usize = 0;
        while i < self.statements.len()
            invariant
                0 <= i <= self.statements@.len(),
                statements@.len() == i,
                forall|k: int| 0 <= k < i ==> statements@[k]@ == self.statements@[k]@,
            decreases self.statements@.len() - i,
        {
            proof {
                assert(decreases_to!(*self => self.statements));
                assert(decreases_to!(self.statements => self.statements@));
                assert(decreases_to!(self.statements@ => self.statements@[i as int]));
            }
            let d = self.statements[i].duplicate();
            statements.push(d);
            i = i + 1;
        }
        let r = BlockStatement { token: self.token.duplicate(), statements };
        proof {
            lemma_stmt_seq_v(r.statements@);
            lemma_stmt_seq_v(self.statements@);
            assert(stmt_seq_v(r.statements@) =~= stmt_seq_v(self.statements@));
        }
        r
    }
}

impl Expression {
    /// Structure-preserving deep copy.
    pub fn duplicate(&self) -> (r: Expression)
        ensures
            r@ == (*self)@,
        decreases *self, 1int,
    {
        match self {
            Expression::Identifier(i) => Expression::Identifier(i.duplicate()),
            Expression::IntegerLiteral(il) => Expression::IntegerLiteral(
                IntegerLiteral { token: il.token.duplicate(), value: il.value },
            ),
            Expression::BooleanLiteral(bl) => Expression::BooleanLiteral(
                BooleanLiteral { token: bl.token.duplicate(), value: bl.value },
            ),
            Expression::StringLiteral(sl) => Expression::StringLiteral(
                StringLiteral { token: sl.token.duplicate(), value: sl.value.clone() },
            ),
            Expression::FunctionLiteral(fl) => Expression::FunctionLiteral(fl.duplicate()),
            Expression::InfixExpression(ie) => Expression::InfixExpression(
                InfixExpression {
                    token: ie.token.duplicate(),
                    left: Box::new(ie.left.duplicate()),
                    operator: ie.operator.duplicate(),
                    right: Box::new(ie.right.duplicate()),
                },
            ),
            Expression::PrefixExpression(pe) => Expression::PrefixExpression(
                PrefixExpression {
                    token: pe.token.duplicate(),
                    right: Box::new(pe.right.duplicate()),
                },
            ),
            Expression::IfExpression(ife) => Expression::IfExpression(
                IfExpression {
                    token: ife.token.duplicate(),
                    condition: Box::new(ife.condition.duplicate()),
                    consequence: ife.consequence.duplicate(),
                    alternative: match &ife.alternative {
                        Some(alt) => Some(alt.duplicate()),
                        None => None,
                    },
                },
            ),
            Expression::CallExpression(ce) => {
                let arguments = dup_expr_vec(&ce.arguments);
                proof {
                    lemma_expr_seq_v(arguments@);
                    lemma_expr_seq_v(ce.arguments@);
                    assert(expr_seq_v(arguments@) =~= expr_seq_v(ce.arguments@));
                }
                Expression::CallExpression(
                    CallExpression {
                        token: ce.token.duplicate(),
                        function: Box::new(ce.function.duplicate()),
                        arguments,
                    },
                )
            },
        }
    }
}

fn dup_expr_vec(v: &Vec<Expression>) -> (r: Vec<Expression>)
    ensures
        r@.len() == v@.len(),
        forall|k: int| 0 <= k < v@.len() ==> r@[k]@ == v@[k]@,
    decreases *v, 0int,
{
    let mut r: Vec<Expression> = Vec::new();
    let mut i: usize = 0;
    while i < v.len()
        invariant
            0 <= i <= v@.len(),
            r@.len() == i,
            forall|k: int| 0 <= k < i ==> r@[k]@ == v@[k]@,
        decreases v@.len() - i,
    {
        proof {
            assert(decreases_to!(*v => v@));
            assert(decreases_to!(v@ => v@[i as int]));
        }
        let d = v[i].duplicate();
        r.push(d);
        i = i + 1;
    }
    r
}

impl FunctionLiteral {
    /// Structure-preserving deep copy.
    pub fn duplicate(&self) -> (r: FunctionLiteral)
        ensures
            fnlit_v(r) == fnlit_v(*self),
        decreases *self, 0int,
    {
        let ident = match &self.ident {
            Some(i) => Some(i.duplicate()),
            None => None,
        };
        let mut parameters: Vec<Identifier> = Vec::new();
        let mut i: usize = 0;
        while i < self.parameters.len()
            invariant
                0 <= i <= self.parameters@.len(),
                parameters@.len() == i,
                forall|k: int| 0 <= k < i ==> parameters@[k]@ == self.parameters@[k]@,
            decreases self.parameters@.len() - i,
        {
            let d = self.parameters[i].duplicate();
            parameters.push(d);
            i = i + 1;
        }
        let r = FunctionLiteral {
            token: self.token.duplicate(),
            ident,
            parameters,
            body: self.body.duplicate(),
        };
        proof {
            assert(r.parameters@.map_values(|ii: Identifier| ident_v(ii)) =~= self.parameters@
                .map_values(|ii: Identifier| ident_v(ii)));
        }
        r
    }
}

// ------------------------------------------------------------------
// Canonical printed form of the tree, as a specification.
// ------------------------------------------------------------------

/// Literal text of the token a statement was introduced by.
pub open spec fn stmt_lit(s: StatementV) -> Seq<char> {
    match s {
        StatementV::LetStatement(ls) => ls.token.literal,
        StatementV::ExpressionStatement(es) => es.token.literal,
        StatementV::ReturnStatement(rs) => rs.token.literal,
        StatementV::BlockStatement(bs) => bs.token.literal,
    }
}

/// Literal text of the token an expression was introduced by.
pub open spec fn expr_lit(e: ExpressionV) -> Seq<char> {
    match e {
        ExpressionV::Identifier(i) => i.token.literal,
        ExpressionV::IntegerLiteral(il) => il.token.literal,
        ExpressionV::BooleanLiteral(bl) => bl.token.literal,
        ExpressionV::StringLiteral(sl) => sl.token.literal,
        ExpressionV::FunctionLiteral(fl) => fl.token.literal,
        ExpressionV::InfixExpression(ie) => ie.token.literal,
        ExpressionV::PrefixExpression(pe) => pe.token.literal,
        ExpressionV::IfExpression(ife) => ife.token.literal,
        ExpressionV::CallExpression(ce) => ce.token.literal,
    }
}

/// Comma-and-space separated joining of already printed parts.
pub open spec fn join_comma(parts: Seq<Seq<char>>) -> Seq<char>
    decreases parts,
{
    if parts.len() == 0 {
        Seq::empty()
    } else if parts.len() == 1 {
        parts[0]
    } else {
        parts[0] + ", "@ + join_comma(parts.skip(1))
    }
}

/// Appending one more part extends the joined text by a separator (where
/// any part came before) and the part.
pub proof fn lemma_join_comma_push(parts: Seq<Seq<char>>, x: Seq<char>)
    ensures
        join_comma(parts.push(x)) == if parts.len() == 0 {
            x
        } else {
            join_comma(parts) + ", "@ + x
        },
    decreases parts.len(),
{
    let p = parts.push(x);
    if parts.len() == 0 {
        assert(p.len() == 1);
        assert(p[0] == x);
    } else {
        assert(p[0] == parts[0]);
        assert(p.skip(1) =~= parts.skip(1).push(x));
        lemma_join_comma_push(parts.skip(1), x);
        if parts.len() == 1 {
            assert(join_comma(p) == parts[0] + ", "@ + x);
            assert(join_comma(parts) == parts[0]);
        } else {
            assert(join_comma(p) =~= join_comma(parts) + ", "@ + x);
        }
    }
}

pub open spec fn ident_strs(v: Seq<IdentifierV>) -> Seq<Seq<char>> {
    v.map_values(|i: IdentifierV| i.value)
}

pub open spec fn stmt_seq_str(v: Seq<StatementV>) -> Seq<char>
    decreases v,
{
    if v.len() == 0 {
        Seq::empty()
    } else {
        stmt_str(v[0]) + stmt_seq_str(v.skip(1))
    }
}

pub open spec fn expr_strs(v: Seq<ExpressionV>) -> Seq<Seq<char>>
    decreases v,
{
    if v.len() == 0 {
        Seq::empty()
    } else {
        seq![expr_str(v[0])] + expr_strs(v.skip(1))
    }
}

/// Canonical, fully parenthesized printed form of a statement.
pub open spec fn stmt_str(s: StatementV) -> Seq<char>
    decreases s,
{
    match s {
        StatementV::LetStatement(ls) => ls.token.literal + " "@ + ls.identifier.value + (match ls
            .value {
            Some(e) => " = "@ + expr_str(e),
            None => Seq::empty(),
        }) + ";"@,
        StatementV::ExpressionStatement(es) => match es.expression {
            Some(e) => expr_str(e),
            None => Seq::empty(),
        },
        StatementV::ReturnStatement(rs) => rs.token.literal + (match rs.value {
            Some(e) => " "@ + expr_str(e),
            None => Seq::empty(),
        }) + ";"@,
        StatementV::BlockStatement(bs) => stmt_seq_str(bs.statements),
    }
}

/// Canonical, fully parenthesized printed form of an expression.
pub open spec fn expr_str(e: ExpressionV) -> Seq<char>
    decreases e,
{
    match e {
        ExpressionV::Identifier(i) => i.value,
        ExpressionV::IntegerLiteral(il) => spec_int_dec(il.value as int),
        ExpressionV::BooleanLiteral(bl) => if bl.value {
            "true"@
        } else {
            "false"@
        },
        ExpressionV::StringLiteral(sl) => sl.value,
        ExpressionV::FunctionLiteral(fl) => fl.token.literal + (match fl.ident {
            Some(i) => " "@ + i.value,
            None => Seq::empty(),
        }) + "("@ + join_comma(ident_strs(fl.parameters)) + ") {"@ + stmt_seq_str(
            fl.body.statements,
        ) + "}"@,
        ExpressionV::InfixExpression(ie) => "("@ + expr_str(*ie.left) + " "@ + ie.operator.literal
            + " "@ + expr_str(*ie.right) + ")"@,
        ExpressionV::PrefixExpression(pe) => pe.token.literal + "("@ + expr_str(*pe.right) + ")"@,
        ExpressionV::IfExpression(ife) => "if "@ + expr_str(*ife.condition) + " {"@ + stmt_seq_str(
            ife.consequence.statements,
        ) + "}"@ + (match ife.alternative {
            Some(alt) => " else {"@ + stmt_seq_str(alt.statements) + "}"@,
            None => Seq::empty(),
        }),
        ExpressionV::CallExpression(ce) => expr_str(*ce.function) + "("@ + join_comma(
            expr_strs(ce.arguments),
        ) + ")"@,
    }
}

/// The printed parts of an expression sequence, element by element.
pub proof fn lemma_expr_strs(v: Seq<ExpressionV>)
    ensures
        expr_strs(v).len() == v.len(),
        forall|i: int| 0 <= i < v.len() ==> expr_strs(v)[i] == expr_str(v[i]),
    decreases v.len(),
{
    if v.len() > 0 {
        lemma_expr_strs(v.skip(1));
        assert forall|i: int| 0 <= i < v.len() implies expr_strs(v)[i] == expr_str(v[i]) by {
            if i > 0 {
                assert(v.skip(1)[i - 1] == v[i]);
            }
        }
    }
}

// ------------------------------------------------------------------
// Executable printing, proved to produce the canonical form.
// ------------------------------------------------------------------

fn exec_stmt_string(s: &Statement) -> (r: String)
    ensures
        r@ == stmt_str(s@),
    decreases *s, 1int,
{
    match s {
        Statement::LetStatement(ls) => exec_let_stmt_string(ls),
        Statement::ExpressionStatement(es) => exec_expr_stmt_string(es),
        Statement::ReturnStatement(rs) => exec_ret_stmt_string(rs),
        Statement::BlockStatement(bs) => exec_block_string(bs),
    }
}

fn exec_let_stmt_string(ls: &LetStatement) -> (r: String)
    ensures
        r@ == stmt_str(StatementV::LetStatement(
            LetStatementV {
                token: ls.token@,
                identifier: ls.identifier@,
                value: match ls.value {
                    Some(e) => Some(e@),
                    None => None,
                },
            },
        )),
    decreases *ls, 0int,
{
    let mut buf = String::new();
    buf.append(ls.token.literal.as_str());
    buf.append(" ");
    buf.append(ls.identifier.value.as_str());
    match &ls.value {
        Some(e) => {
            buf.append(" = ");
            let es = exec_expr_string(e);
            buf.append(es.as_str());
        },
        None => {},
    }
    buf.append(";");
    proof {
        assert(buf@ =~= stmt_str(StatementV::LetStatement(
            LetStatementV {
                token: ls.token@,
                identifier: ls.identifier@,
                value: match ls.value {
                    Some(e) => Some(e@),
                    None => None,
                },
            },
        )));
    }
    buf
}

fn exec_ret_stmt_string(rs: &ReturnStatement) -> (r: String)
    ensures
        r@ == stmt_str(StatementV::ReturnStatement(
            ReturnStatementV {
                token: rs.token@,
                value: match rs.value {
                    Some(e) => Some(e@),
                    None => None,
                },
            },
        )),
    decreases *rs, 0int,
{
    let mut buf = String::new();
    buf.append(rs.token.literal.as_str());
    match &rs.value {
        Some(e) => {
            buf.append(" ");
            let es = exec_expr_string(e);
            buf.append(es.as_str());
        },
        None => {},
    }
    buf.append(";");
    proof {
        assert(buf@ =~= stmt_str(StatementV::ReturnStatement(
            ReturnStatementV {
                token: rs.token@,
                value: match rs.value {
                    Some(e) => Some(e@),
                    None => None,
                },
            },
        )));
    }
    buf
}

fn exec_expr_stmt_string(es: &ExpressionStatement) -> (r: String)
    ensures
        r@ == stmt_str(StatementV::ExpressionStatement(
            ExpressionStatementV {
                token: es.token@,
                expression: match es.expression {
                    Some(e) => Some(e@),
                    None => None,
                },
            },
        )),
    decreases *es, 0int,
{
    match &es.expression {
        Some(e) => exec_expr_string(e),
        None => String::new(),
    }
}

fn exec_stmt_seq_string(v: &Vec<Statement>) -> (r: String)
    ensures
        r@ == stmt_seq_str(stmt_seq_v(v@)),
    decreases *v, 0int,
{
    let mut buf = String::new();
    let mut i: usize = 0;
    proof {
        lemma_stmt_seq_v(v@);
    }
    while i < v.len()
        invariant
            0 <= i <= v@.len(),
            stmt_seq_v(v@).len() == v@.len(),
            forall|k: int| 0 <= k < v@.len() ==> stmt_seq_v(v@)[k] == stmt_v(v@[k]),
            buf@ =~= stmt_seq_str(stmt_seq_v(v@).take(i as int)),
        decreases v@.len() - i,
    {
        let s = exec_stmt_string(&v[i]);
        buf.append(s.as_str());
        proof {
            lemma_stmt_seq_str_take(stmt_seq_v(v@), i as int);
        }
        i = i + 1;
    }
    proof {
        assert(stmt_seq_v(v@).take(v@.len() as int) =~= stmt_seq_v(v@));
    }
    buf
}

/// One more statement extends the concatenated printed block text.
pub proof fn lemma_stmt_seq_str_take(v: Seq<StatementV>, i: int)
    requires
        0 <= i < v.len(),
    ensures
        stmt_seq_str(v.take(i + 1)) == stmt_seq_str(v.take(i)) + stmt_str(v[i]),
    decreases i,
{
    if i == 0 {
        assert(v.take(1) =~= seq![v[0]]);
        assert(v.take(0) =~= Seq::<StatementV>::empty());
        assert(stmt_seq_str(seq![v[0]]) =~= stmt_str(v[0]) + stmt_seq_str(
            seq![v[0]].skip(1),
        ));
        assert(seq![v[0]].skip(1) =~= Seq::<StatementV>::empty());
        assert(stmt_seq_str(v.take(1)) =~= stmt_seq_str(v.take(0)) + stmt_str(v[0]));
    } else {
        lemma_stmt_seq_str_take(v.skip(1), i - 1);
        assert(v.take(i + 1)[0] == v[0]);
        assert(v.take(i + 1).skip(1) =~= v.skip(1).take(i));
        assert(v.take(i).skip(1) =~= v.skip(1).take(i - 1));
        assert(v.skip(1)[i - 1] == v[i]);
        assert(stmt_seq_str(v.take(i + 1)) =~= stmt_seq_str(v.take(i)) + stmt_str(v[i]));
    }
}

fn exec_block_string(bs: &BlockStatement) -> (r: String)
    ensures
        r@ == stmt_seq_str(block_v(*bs).statements),
    decreases *bs, 1int,
{
    exec_stmt_seq_string(&bs.statements)
}

fn exec_expr_string(e: &Expression) -> (r: String)
    ensures
        r@ == expr_str(e@),
    decreases *e, 1int,
{
    match e {
        Expression::Identifier(i) => i.value.clone(),
        Expression::IntegerLiteral(il) => int_to_string(il.value),
        Expression::BooleanLiteral(bl) => if bl.value {
            "true".to_owned()
        } else {
            "false".to_owned()
        },
        Expression::StringLiteral(sl) => sl.value.clone(),
        Expression::FunctionLiteral(fl) => exec_fnlit_string(fl),
        Expression::InfixExpression(ie) => exec_infix_string(ie),
        Expression::PrefixExpression(pe) => exec_prefix_string(pe),
        Expression::IfExpression(ife) => exec_if_string(ife),
        Expression::CallExpression(ce) => exec_call_string(ce),
    }
}

fn exec_fnlit_string(fl: &FunctionLiteral) -> (r: String)
    ensures
        r@ == fl.token@.literal + (match fl.ident {
            Some(i) => " "@ + ident_v(i).value,
            None => Seq::<char>::empty(),
        }) + "("@ + join_comma(
            ident_strs(fl.parameters@.map_values(|i: Identifier| ident_v(i))),
        ) + ") {"@ + stmt_seq_str(block_v(fl.body).statements) + "}"@,
    decreases *fl, 0int,
{
    let mut buf = String::new();
    buf.append(fl.token.literal.as_str());
    match &fl.ident {
        Some(i) => {
            buf.append(" ");
            buf.append(i.value.as_str());
        },
        None => {},
    }
    buf.append("(");
    let ghost parts = ident_strs(fl.parameters@.map_values(|i: Identifier| ident_v(i)));
    let ghost head = fl.token@.literal + (match &fl.ident {
        Some(i) => " "@ + ident_v(*i).value,
        None => Seq::<char>::empty(),
    }) + "("@;
    proof {
        assert(buf@ =~= head);
    }
    let mut i: usize = 0;
    while i < fl.parameters.len()
        invariant
            0 <= i <= fl.parameters@.len(),
            parts == ident_strs(fl.parameters@.map_values(|ii: Identifier| ident_v(ii))),
            parts.len() == fl.parameters@.len(),
            forall|k: int| 0 <= k < parts.len() ==> parts[k] == fl.parameters@[k].value@,
            buf@ =~= head + join_comma(parts.take(i as int)),
        decreases fl.parameters@.len() - i,
    {
        if i > 0 {
            buf.append(", ");
        }
        buf.append(fl.parameters[i].value.as_str());
        proof {
            assert(parts.take(i + 1 as int) =~= parts.take(i as int).push(parts[i as int]));
            lemma_join_comma_push(parts.take(i as int), parts[i as int]);
        }
        i = i + 1;
    }
    buf.append(") {");
    let b = exec_block_string(&fl.body);
    buf.append(b.as_str());
    buf.append("}");
    proof {
        assert(parts.take(parts.len() as int) =~= parts);
        assert(buf@ =~= head + join_comma(parts) + ") {"@ + stmt_seq_str(block_v(fl.body).statements)
            + "}"@);
    }
    buf
}

fn exec_prefix_string(pe: &PrefixExpression) -> (r: String)
    ensures
        r@ == pe.token@.literal + "("@ + expr_str((*pe.right)@) + ")"@,
    decreases *pe, 0int,
{
    let mut buf = String::new();
    buf.append(pe.token.literal.as_str());
    buf.append("(");
    let inner = exec_expr_string(&pe.right);
    buf.append(inner.as_str());
    buf.append(")");
    proof {
        assert(buf@ =~= pe.token@.literal + "("@ + expr_str((*pe.right)@) + ")"@);
    }
    buf
}

fn exec_infix_string(ie: &InfixExpression) -> (r: String)
    ensures
        r@ == "("@ + expr_str((*ie.left)@) + " "@ + ie.operator@.literal + " "@ + expr_str(
            (*ie.right)@,
        ) + ")"@,
    decreases *ie, 0int,
{
    let mut buf = String::new();
    buf.append("(");
    let l = exec_expr_string(&ie.left);
    buf.append(l.as_str());
    buf.append(" ");
    buf.append(ie.operator.literal.as_str());
    buf.append(" ");
    let rr = exec_expr_string(&ie.right);
    buf.append(rr.as_str());
    buf.append(")");
    proof {
        assert(buf@ =~= "("@ + expr_str((*ie.left)@) + " "@ + ie.operator@.literal + " "@
            + expr_str((*ie.right)@) + ")"@);
    }
    buf
}

fn exec_if_string(ife: &IfExpression) -> (r: String)
    ensures
        r@ == "if "@ + expr_str((*ife.condition)@) + " {"@ + stmt_seq_str(
            block_v(ife.consequence).statements,
        ) + "}"@ + (match ife.alternative {
            Some(alt) => " else {"@ + stmt_seq_str(block_v(alt).statements) + "}"@,
            None => Seq::<char>::empty(),
        }),
    decreases *ife, 0int,
{
    let mut buf = String::new();
    buf.append("if ");
    let c = exec_expr_string(&ife.condition);
    buf.append(c.as_str());
    buf.append(" {");
    let cons = exec_block_string(&ife.consequence);
    buf.append(cons.as_str());
    buf.append("}");
    match &ife.alternative {
        Some(alt) => {
            buf.append(" else {");
            let a = exec_block_string(alt);
            buf.append(a.as_str());
            buf.append("}");
        },
        None => {},
    }
    proof {
        assert(buf@ =~= "if "@ + expr_str((*ife.condition)@) + " {"@ + stmt_seq_str(
            block_v(ife.consequence).statements,
        ) + "}"@ + (match ife.alternative {
            Some(alt) => " else {"@ + stmt_seq_str(block_v(alt).statements) + "}"@,
            None => Seq::<char>::empty(),
        }));
    }
    buf
}

fn exec_call_string(ce: &CallExpression) -> (r: String)
    ensures
        r@ == expr_str((*ce.function)@) + "("@ + join_comma(expr_strs(expr_seq_v(ce.arguments@)))
            + ")"@,
    decreases *ce, 0int,
{
    let mut buf = String::new();
    let f = exec_expr_string(&ce.function);
    buf.append(f.as_str());
    buf.append("(");
    let ghost parts = expr_strs(expr_seq_v(ce.arguments@));
    proof {
        lemma_expr_seq_v(ce.arguments@);
        lemma_expr_strs(expr_seq_v(ce.arguments@));
    }
    let mut i: usize = 0;
    while i < ce.arguments.len()
        invariant
            0 <= i <= ce.arguments@.len(),
            parts == expr_strs(expr_seq_v(ce.arguments@)),
            parts.len() == ce.arguments@.len(),
            forall|k: int| 0 <= k < parts.len() ==> parts[k] == expr_str(expr_v(ce.arguments@[k])),
            buf@ =~= expr_str((*ce.function)@) + "("@ + join_comma(parts.take(i as int)),
        decreases ce.arguments@.len() - i,
    {
        if i > 0 {
            buf.append(", ");
        }
        let a = exec_expr_string(&ce.arguments[i]);
        buf.append(a.as_str());
        proof {
            assert(parts.take(i + 1 as int) =~= parts.take(i as int).push(parts[i as int]));
            lemma_join_comma_push(parts.take(i as int), parts[i as int]);
        }
        i = i + 1;
    }
    buf.append(")");
    proof {
        assert(parts.take(parts.len() as int) =~= parts);
        assert(buf@ =~= expr_str((*ce.function)@) + "("@ + join_comma(parts) + ")"@);
    }
    buf
}

impl View for LetStatement {
    type V = LetStatementV;

    open spec fn view(&self) -> LetStatementV {
        letstmt_v(*self)
    }
}

impl View for ReturnStatement {
    type V = ReturnStatementV;

    open spec fn view(&self) -> ReturnStatementV {
        retstmt_v(*self)
    }
}

impl View for ExpressionStatement {
    type V = ExpressionStatementV;

    open spec fn view(&self) -> ExpressionStatementV {
        exprstmt_v(*self)
    }
}

impl View for IntegerLiteral {
    type V = IntegerLiteralV;

    open spec fn view(&self) -> IntegerLiteralV {
        intlit_v(*self)
    }
}

impl View for BooleanLiteral {
    type V = BooleanLiteralV;

    open spec fn view(&self) -> BooleanLiteralV {
        boollit_v(*self)
    }
}

impl View for StringLiteral {
    type V = StringLiteralV;

    open spec fn view(&self) -> StringLiteralV {
        strlit_v(*self)
    }
}

impl View for FunctionLiteral {
    type V = FunctionLiteralV;

    open spec fn view(&self) -> FunctionLiteralV {
        fnlit_v(*self)
    }
}

impl View for PrefixExpression {
    type V = PrefixExpressionV;

    open spec fn view(&self) -> PrefixExpressionV {
        prefix_v(*self)
    }
}

impl View for InfixExpression {
    type V = InfixExpressionV;

    open spec fn view(&self) -> InfixExpressionV {
        infix_v(*self)
    }
}

impl View for IfExpression {
    type V = IfExpressionV;

    open spec fn view(&self) -> IfExpressionV {
        ifexpr_v(*self)
    }
}

impl View for CallExpression {
    type V = CallExpressionV;

    open spec fn view(&self) -> CallExpressionV {
        callexpr_v(*self)
    }
}

// ------------------------------------------------------------------
// The shared node interface: leading-token text, canonical printed
// form, and wrapping into the unified `Node`.
// ------------------------------------------------------------------

pub trait Nodetrait: Sized {
    /// Literal text of the token this node was introduced by.
    spec fn spec_literal(&self) -> Seq<char>;

    /// Canonical printed form of this node.
    spec fn spec_str(&self) -> Seq<char>;

    /// This node wrapped into the unified tree node model.
    spec fn spec_node(&self) -> NodeV;

    fn literal(&self) -> (r: String)
        ensures
            r@ == self.spec_literal(),
    ;

    fn to_str(&self) -> (r: String)
        ensures
            r@ == self.spec_str(),
    ;

    fn to_node(self) -> (n: Node)
        ensures
            n@ == self.spec_node(),
    ;
}

impl Nodetrait for Statement {
    open spec fn spec_literal(&self) -> Seq<char> {
        stmt_lit((*self)@)
    }

    open spec fn spec_str(&self) -> Seq<char> {
        stmt_str((*self)@)
    }

    open spec fn spec_node(&self) -> NodeV {
        NodeV::Statement((*self)@)
    }

    fn literal(&self) -> (r: String) {
        match self {
            Statement::LetStatement(stm) => stm.literal(),
            Statement::ExpressionStatement(stm) => stm.literal(),
            Statement::ReturnStatement(stm) => stm.literal(),
            Statement::BlockStatement(stm) => stm.literal(),
        }
    }

    fn to_str(&self) -> (r: String) {
        exec_stmt_string(self)
    }

    fn to_node(self) -> (n: Node) {
        Node::Statement(self)
    }
}

impl Nodetrait for Expression {
    open spec fn spec_literal(&self) -> Seq<char> {
        expr_lit((*self)@)
    }

    open spec fn spec_str(&self) -> Seq<char> {
        expr_str((*self)@)
    }

    open spec fn spec_node(&self) -> NodeV {
        NodeV::Expression((*self)@)
    }

    fn literal(&self) -> (r: String) {
        match self {
            Expression::Identifier(idt) => idt.literal(),
            Expression::IntegerLiteral(int_lit) => int_lit.literal(),
            Expression::BooleanLiteral(bool_lit) => bool_lit.literal(),
            Expression::FunctionLiteral(flit) => flit.literal(),
            Expression::StringLiteral(slit) => slit.literal(),
            Expression::InfixExpression(ifix) => ifix.literal(),
            Expression::PrefixExpression(pfix) => pfix.literal(),
            Expression::IfExpression(ifx) => ifx.literal(),
            Expression::CallExpression(cexp) => cexp.literal(),
        }
    }

    fn to_str(&self) -> (r: String) {
        exec_expr_string(self)
    }

    fn to_node(self) -> (n: Node) {
        Node::Expression(self)
    }
}

impl Nodetrait for Identifier {
    open spec fn spec_literal(&self) -> Seq<char> {
        self.token@.literal
    }

    open spec fn spec_str(&self) -> Seq<char> {
        (*self)@.value
    }

    open spec fn spec_node(&self) -> NodeV {
        NodeV::Expression(ExpressionV::Identifier((*self)@))
    }

    fn literal(&self) -> (r: String) {
        self.token.literal.clone()
    }

    fn to_str(&self) -> (r: String) {
        self.value.clone()
    }

    fn to_node(self) -> (n: Node) {
        Node::Expression(Expression::Identifier(self))
    }
}

impl Nodetrait for IntegerLiteral {
    open spec fn spec_literal(&self) -> Seq<char> {
        self.token@.literal
    }

    open spec fn spec_str(&self) -> Seq<char> {
        spec_int_dec(self.value as int)
    }

    open spec fn spec_node(&self) -> NodeV {
        NodeV::Expression(ExpressionV::IntegerLiteral((*self)@))
    }

    fn literal(&self) -> (r: String) {
        self.token.literal.clone()
    }

    fn to_str(&self) -> (r: String) {
        int_to_string(self.value)
    }

    fn to_node(self) -> (n: Node) {
        Node::Expression(Expression::IntegerLiteral(self))
    }
}

impl Nodetrait for BooleanLiteral {
    open spec fn spec_literal(&self) -> Seq<char> {
        self.token@.literal
    }

    open spec fn spec_str(&self) -> Seq<char> {
        if self.value {
            "true"@
        } else {
            "false"@
        }
    }

    open spec fn spec_node(&self) -> NodeV {
        NodeV::Expression(ExpressionV::BooleanLiteral((*self)@))
    }

    fn literal(&self) -> (r: String) {
        self.token.literal.clone()
    }

    fn to_str(&self) -> (r: String) {
        if self.value {
            "true".to_owned()
        } else {
            "false".to_owned()
        }
    }

    fn to_node(self) -> (n: Node) {
        Node::Expression(Expression::BooleanLiteral(self))
    }
}

impl Nodetrait for StringLiteral {
    open spec fn spec_literal(&self) -> Seq<char> {
        self.token@.literal
    }

    open spec fn spec_str(&self) -> Seq<char> {
        (*self)@.value
    }

    open spec fn spec_node(&self) -> NodeV {
        NodeV::Expression(ExpressionV::StringLiteral((*self)@))
    }

    fn literal(&self) -> (r: String) {
        self.token.literal.clone()
    }

    fn to_str(&self) -> (r: String) {
        self.value.clone()
    }

    fn to_node(self) -> (n: Node) {
        Node::Expression(Expression::StringLiteral(self))
    }
}

impl Nodetrait for FunctionLiteral {
    open spec fn spec_literal(&self) -> Seq<char> {
        self.token@.literal
    }

    open spec fn spec_str(&self) -> Seq<char> {
        expr_str(ExpressionV::FunctionLiteral((*self)@))
    }

    open spec fn spec_node(&self) -> NodeV {
        NodeV::Expression(ExpressionV::FunctionLiteral((*self)@))
    }

    fn literal(&self) -> (r: String) {
        self.token.literal.clone()
    }

    fn to_str(&self) -> (r: String) {
        exec_fnlit_string(self)
    }

    fn to_node(self) -> (n: Node) {
        Node::Expression(Expression::FunctionLiteral(self))
    }
}

impl Nodetrait for LetStatement {
    open spec fn spec_literal(&self) -> Seq<char> {
        self.token@.literal
    }

    open spec fn spec_str(&self) -> Seq<char> {
        stmt_str(StatementV::LetStatement((*self)@))
    }

    open spec fn spec_node(&self) -> NodeV {
        NodeV::Statement(StatementV::LetStatement((*self)@))
    }

    fn literal(&self) -> (r: String) {
        self.token.literal.clone()
    }

    fn to_str(&self) -> (r: String) {
        exec_let_stmt_string(self)
    }

    fn to_node(self) -> (n: Node) {
        Node::Statement(Statement::LetStatement(self))
    }
}

impl Nodetrait for ReturnStatement {
    open spec fn spec_literal(&self) -> Seq<char> {
        self.token@.literal
    }

    open spec fn spec_str(&self) -> Seq<char> {
        stmt_str(StatementV::ReturnStatement((*self)@))
    }

    open spec fn spec_node(&self) -> NodeV {
        NodeV::Statement(StatementV::ReturnStatement((*self)@))
    }

    fn literal(&self) -> (r: String) {
        self.token.literal.clone()
    }

    fn to_str(&self) -> (r: String) {
        exec_ret_stmt_string(self)
    }

    fn to_node(self) -> (n: Node) {
        Node::Statement(Statement::ReturnStatement(self))
    }
}

impl Nodetrait for BlockStatement {
    open spec fn spec_literal(&self) -> Seq<char> {
        self.token@.literal
    }

    open spec fn spec_str(&self) -> Seq<char> {
        stmt_str(StatementV::BlockStatement((*self)@))
    }

    open spec fn spec_node(&self) -> NodeV {
        NodeV::Statement(StatementV::BlockStatement((*self)@))
    }

    fn literal(&self) -> (r: String) {
        self.token.literal.clone()
    }

    fn to_str(&self) -> (r: String) {
        exec_block_string(self)
    }

    fn to_node(self) -> (n: Node) {
        Node::Statement(Statement::BlockStatement(self))
    }
}

impl Nodetrait for ExpressionStatement {
    open spec fn spec_literal(&self) -> Seq<char> {
        self.token@.literal
    }

    open spec fn spec_str(&self) -> Seq<char> {
        stmt_str(StatementV::ExpressionStatement((*self)@))
    }

    open spec fn spec_node(&self) -> NodeV {
        NodeV::Statement(StatementV::ExpressionStatement((*self)@))
    }

    fn literal(&self) -> (r: String) {
        self.token.literal.clone()
    }

    fn to_str(&self) -> (r: String) {
        exec_expr_stmt_string(self)
    }

    fn to_node(self) -> (n: Node) {
        Node::Statement(Statement::ExpressionStatement(self))
    }
}

impl Nodetrait for PrefixExpression {
    open spec fn spec_literal(&self) -> Seq<char> {
        self.token@.literal
    }

    open spec fn spec_str(&self) -> Seq<char> {
        expr_str(ExpressionV::PrefixExpression((*self)@))
    }

    open spec fn spec_node(&self) -> NodeV {
        NodeV::Expression(ExpressionV::PrefixExpression((*self)@))
    }

    fn literal(&self) -> (r: String) {
        self.token.literal.clone()
    }

    fn to_str(&self) -> (r: String) {
        exec_prefix_string(self)
    }

    fn to_node(self) -> (n: Node) {
        Node::Expression(Expression::PrefixExpression(self))
    }
}

impl Nodetrait for InfixExpression {
    open spec fn spec_literal(&self) -> Seq<char> {
        self.token@.literal
    }

    open spec fn spec_str(&self) -> Seq<char> {
        expr_str(ExpressionV::InfixExpression((*self)@))
    }

    open spec fn spec_node(&self) -> NodeV {
        NodeV::Expression(ExpressionV::InfixExpression((*self)@))
    }

    fn literal(&self) -> (r: String) {
        self.token.literal.clone()
    }

    fn to_str(&self) -> (r: String) {
        exec_infix_string(self)
    }

    fn to_node(self) -> (n: Node) {
        Node::Expression(Expression::InfixExpression(self))
    }
}

impl Nodetrait for IfExpression {
    open spec fn spec_literal(&self) -> Seq<char> {
        self.token@.literal
    }

    open spec fn spec_str(&self) -> Seq<char> {
        expr_str(ExpressionV::IfExpression((*self)@))
    }

    open spec fn spec_node(&self) -> NodeV {
        NodeV::Expression(ExpressionV::IfExpression((*self)@))
    }

    fn literal(&self) -> (r: String) {
        self.token.literal.clone()
    }

    fn to_str(&self) -> (r: String) {
        exec_if_string(self)
    }

    fn to_node(self) -> (n: Node) {
        Node::Expression(Expression::IfExpression(self))
    }
}

impl Nodetrait for CallExpression {
    open spec fn spec_literal(&self) -> Seq<char> {
        self.token@.literal
    }

    open spec fn spec_str(&self) -> Seq<char> {
        expr_str(ExpressionV::CallExpression((*self)@))
    }

    open spec fn spec_node(&self) -> NodeV {
        NodeV::Expression(ExpressionV::CallExpression((*self)@))
    }

    fn literal(&self) -> (r: String) {
        self.token.literal.clone()
    }

    fn to_str(&self) -> (r: String) {
        exec_call_string(self)
    }

    fn to_node(self) -> (n: Node) {
        Node::Expression(Expression::CallExpression(self))
    }
}

/// Literal text of a statement sequence: the leading-token texts in order.
pub open spec fn stmt_seq_lit(v: Seq<StatementV>) -> Seq<char>
    decreases v,
{
    if v.len() == 0 {
        Seq::empty()
    } else {
        stmt_lit(v[0]) + stmt_seq_lit(v.skip(1))
    }
}

/// One more statement extends the concatenated literal text.
pub proof fn lemma_stmt_seq_lit_take(v: Seq<StatementV>, i: int)
    requires
        0 <= i < v.len(),
    ensures
        stmt_seq_lit(v.take(i + 1)) == stmt_seq_lit(v.take(i)) + stmt_lit(v[i]),
    decreases i,
{
    if i == 0 {
        assert(v.take(1) =~= seq![v[0]]);
        assert(v.take(0) =~= Seq::<StatementV>::empty());
        assert(seq![v[0]].skip(1) =~= Seq::<StatementV>::empty());
        assert(stmt_seq_lit(v.take(1)) =~= stmt_seq_lit(v.take(0)) + stmt_lit(v[0]));
    } else {
        lemma_stmt_seq_lit_take(v.skip(1), i - 1);
        assert(v.take(i + 1)[0] == v[0]);
        assert(v.take(i + 1).skip(1) =~= v.skip(1).take(i));
        assert(v.take(i).skip(1) =~= v.skip(1).take(i - 1));
        assert(v.skip(1)[i - 1] == v[i]);
        assert(stmt_seq_lit(v.take(i + 1)) =~= stmt_seq_lit(v.take(i)) + stmt_lit(v[i]));
    }
}

impl Nodetrait for Program {
    open spec fn spec_literal(&self) -> Seq<char> {
        "Program: "@ + stmt_seq_lit((*self)@.statements)
    }

    open spec fn spec_str(&self) -> Seq<char> {
        "Program: "@ + stmt_seq_str((*self)@.statements)
    }

    open spec fn spec_node(&self) -> NodeV {
        NodeV::Program((*self)@)
    }

    fn literal(&self) -> (r: String) {
        let mut buf = String::new();
        buf.append("Program: ");
        let ghost stmts = (*self)@.statements;
        proof {
            lemma_stmt_seq_v(self.statements@);
        }
        let mut i: usize = 0;
        while i < self.statements.len()
            invariant
                0 <= i <= self.statements@.len(),
                stmts == stmt_seq_v(self.statements@),
                stmts.len() == self.statements@.len(),
                forall|k: int| 0 <= k < stmts.len() ==> stmts[k] == stmt_v(self.statements@[k]),
                buf@ =~= "Program: "@ + stmt_seq_lit(stmts.take(i as int)),
            decreases self.statements@.len() - i,
        {
            let s = self.statements[i].literal();
            buf.append(s.as_str());
            proof {
                lemma_stmt_seq_lit_take(stmts, i as int);
            }
            i = i + 1;
        }
        proof {
            assert(stmts.take(stmts.len() as int) =~= stmts);
        }
        buf
    }

    fn to_str(&self) -> (r: String) {
        let mut buf = String::new();
        buf.append("Program: ");
        let ghost stmts = (*self)@.statements;
        proof {
            lemma_stmt_seq_v(self.statements@);
        }
        let mut i: usize = 0;
        while i < self.statements.len()
            invariant
                0 <= i <= self.statements@.len(),
                stmts == stmt_seq_v(self.statements@),
                stmts.len() == self.statements@.len(),
                forall|k: int| 0 <= k < stmts.len() ==> stmts[k] == stmt_v(self.statements@[k]),
                buf@ =~= "Program: "@ + stmt_seq_str(stmts.take(i as int)),
            decreases self.statements@.len() - i,
        {
            let s = self.statements[i].to_str();
            buf.append(s.as_str());
            proof {
                lemma_stmt_seq_str_take(stmts, i as int);
            }
            i = i + 1;
        }
        proof {
            assert(stmts.take(stmts.len() as int) =~= stmts);
        }
        buf
    }

    fn to_node(self) -> (n: Node) {
        Node::Program(self)
    }
}

impl Program {
    pub fn new() -> (p: Self)
        ensures
            p@.statements == Seq::<StatementV>::empty(),
    {
        Program { statements: Vec::new() }
    }

    pub fn push_stm(&mut self, stm: Statement)
        ensures
            final(self)@.statements == old(self)@.statements.push(stm@),
    {
        let ghost stmv = stm@;
        let ghost oldseq = self.statements@;
        self.statements.push(stm);
        proof {
            lemma_stmt_seq_v(oldseq);
            lemma_stmt_seq_v(self.statements@);
            assert(stmt_seq_v(self.statements@) =~= stmt_seq_v(oldseq).push(stmv));
        }
    }
}

} // verus!
