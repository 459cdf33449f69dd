//! Expression trees: unary and binary applications, groupings, and
//! literals, each node carrying the token it came from.

use vstd::prelude::*;

use crate::lexer::token::TokView;
use crate::lexer::token::Token;
use crate::lexer::types::TokKind;
use crate::lexer::types::TokenType;
use crate::numeric::rat_dec_str;
use crate::numeric::Rat;

verus! {

/// An expression tree.  Every non-leaf node exclusively owns its
/// children.
#[derive(Debug)]
pub enum Expr {
    Unary(Token, Box<Expr>),
    Binary(Box<Expr>, Token, Box<Expr>),
    Grouping(Box<Expr>),
    Literal(Token),
}

/// The mathematical shape of an expression tree.
pub enum ExprV {
    Unary(TokView, Box<ExprV>),
    Binary(Box<ExprV>, TokView, Box<ExprV>),
    Grouping(Box<ExprV>),
    Literal(TokView),
}

/// The view of an expression tree.
pub open spec fn expr_view(e: &Expr) -> ExprV
    decreases e,
{
    match e {
        Expr::Unary(op, e1) => ExprV::Unary(op@, Box::new(expr_view(e1))),
        Expr::Binary(l, op, r) => ExprV::Binary(
            Box::new(expr_view(l)),
            op@,
            Box::new(expr_view(r)),
        ),
        Expr::Grouping(e1) => ExprV::Grouping(Box::new(expr_view(e1))),
        Expr::Literal(t) => ExprV::Literal(t@),
    }
}

impl View for Expr {
    type V = ExprV;

    open spec fn view(&self) -> ExprV {
        expr_view(self)
    }
}

/// A token kind that may sit in a literal node: a payload-carrying
/// literal or one of `true`, `false`, `nil`.
pub open spec fn literal_kind_ok(k: TokKind) -> bool {
    ||| k is StrLit
    ||| k is Num
    ||| k is Ident
    ||| k is True
    ||| k is False
    ||| k is Nil
}

/// A token kind that may sit in a unary node.
pub open spec fn unary_op_ok(k: TokKind) -> bool {
    k is Minus || k is Bang
}

/// A token kind that may sit in a binary node.
pub open spec fn binary_op_ok(k: TokKind) -> bool {
    ||| k is Plus
    ||| k is Minus
    ||| k is Star
    ||| k is Slash
    ||| k is EqualEqual
    ||| k is BangEqual
    ||| k is Greater
    ||| k is GreaterEqual
    ||| k is Less
    ||| k is LessEqual
}

/// A tree the grammar can produce: every literal node holds a literal
/// token and every operator node holds an operator of its arity.  The
/// parser only emits such trees, and the evaluator expects one.
pub open spec fn grammatical(e: ExprV) -> bool
    decreases e,
{
    match e {
        ExprV::Unary(op, e1) => unary_op_ok(op.kind) && grammatical(*e1),
        ExprV::Binary(l, op, r) => binary_op_ok(op.kind) && grammatical(*l) && grammatical(*r),
        ExprV::Grouping(e1) => grammatical(*e1),
        ExprV::Literal(t) => literal_kind_ok(t.kind),
    }
}

impl Expr {
    /// Decides [`grammatical`] on a concrete tree.
    pub fn is_grammatical(&self) -> (r: bool)
        ensures
            r == grammatical(self@),
        decreases self,
    {
        match self {
            Expr::Unary(op, e1) => {
                let op_ok = match &op.token_type {
                    TokenType::Minus | TokenType::Bang => true,
                    _ => false,
                };
                op_ok && e1.is_grammatical()
            },
            Expr::Binary(l, op, r) => {
                let op_ok = match &op.token_type {
                    TokenType::Plus | TokenType::Minus | TokenType::Star | TokenType::Slash
                    | TokenType::EqualEqual | TokenType::BangEqual | TokenType::Greater
                    | TokenType::GreaterEqual | TokenType::Less | TokenType::LessEqual => true,
                    _ => false,
                };
                op_ok && l.is_grammatical() && r.is_grammatical()
            },
            Expr::Grouping(e1) => e1.is_grammatical(),
            Expr::Literal(t) => match &t.token_type {
                TokenType::String(_) | TokenType::Number(_) | TokenType::Identifier(_)
                | TokenType::TRUE | TokenType::FALSE | TokenType::NIL => true,
                _ => false,
            },
        }
    }

    /// Creates a new literal expression holding a string value.
    pub fn new_string_literal(value: &str) -> (e: Expr)
        ensures
            e@ == ExprV::Literal(
                TokView {
                    kind: TokKind::StrLit(value@),
                    lexeme: value@,
                    line: 0int,
                    character: 0int,
                },
            ),
    {
        Expr::Literal(Token::new_default(TokenType::String(value.to_owned()), value))
    }

    /// Creates a new literal expression holding a number; the lexeme is
    /// the decimal rendering of the value.
    pub fn new_number_literal(value: Rat) -> (e: Expr)
        ensures
            e@ == ExprV::Literal(
                TokView {
                    kind: TokKind::Num(value@),
                    lexeme: rat_dec_str(value@),
                    line: 0int,
                    character: 0int,
                },
            ),
    {
        let lexeme = value.to_decimal_string();
        Expr::Literal(Token::new_default(TokenType::Number(value), lexeme.as_str()))
    }

    /// Creates a new binary expression with the given operator and
    /// operand expressions.
    pub fn new_binary_expr(expr1: Expr, op: Token, expr2: Expr) -> (e: Expr)
        ensures
            e@ == ExprV::Binary(Box::new(expr1@), op@, Box::new(expr2@)),
    {
        Expr::Binary(Box::new(expr1), op, Box::new(expr2))
    }

    /// Creates a new unary expression with the given operator and
    /// operand expression.
    pub fn new_unary_expr(op: Token, expr: Expr) -> (e: Expr)
        ensures
            e@ == ExprV::Unary(op@, Box::new(expr@)),
    {
        Expr::Unary(op, Box::new(expr))
    }

    /// Creates a new grouping expression around the given expression.
    pub fn new_grouping_expr(expr: Expr) -> (e: Expr)
        ensures
            e@ == ExprV::Grouping(Box::new(expr@)),
    {
        Expr::Grouping(Box::new(expr))
    }
}

} // verus!
