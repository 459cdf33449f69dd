//! The syntax-tree printer: parenthesized prefix form, operators before
//! their operands, groupings marked with `group`.

use vstd::prelude::*;

use crate::ast::expr::Expr;
use crate::ast::expr::ExprV;
use crate::lexer::types::TokKind;
use crate::numeric::rat_dec_str;

verus! {

/// The parenthesized prefix rendering of a tree.  A number literal
/// renders as the decimal form of its value, a string literal as its
/// text without quotes.
pub open spec fn spec_print(e: ExprV) -> Seq<char>
    decreases e,
{
    match e {
        ExprV::Unary(op, e1) => "("@ + op.lexeme + " "@ + spec_print(*e1) + ")"@,
        ExprV::Binary(l, op, r) => "("@ + op.lexeme + " "@ + spec_print(*l) + " "@ + spec_print(
            *r,
        ) + ")"@,
        ExprV::Grouping(e1) => "(group "@ + spec_print(*e1) + ")"@,
        ExprV::Literal(t) => match t.kind {
            TokKind::StrLit(s) => s,
            TokKind::Num(v) => rat_dec_str(v),
            _ => "not implemented"@,
        },
    }
}

/// Renders expression trees in parenthesized prefix form.
pub struct AstPrinter;

impl AstPrinter {
    /// The parenthesized prefix rendering of the tree.
    pub fn print(expr: Expr) -> (r: String)
        ensures
            r@ == spec_print(expr@),
        decreases expr,
    {
        match expr {
            Expr::Unary(op, e1) => {
                let mut s = String::from_str("(");
                s.append(op.lexeme.as_str());
                s.append(" ");
                let inner = Self::print(*e1);
                s.append(inner.as_str());
                s.append(")");
                proof {
                    assert(s@ =~= "("@ + op@.lexeme + " "@ + inner@ + ")"@);
                }
                s
            },
            Expr::Binary(l, op, r) => {
                let mut s = String::from_str("(");
                s.append(op.lexeme.as_str());
                s.append(" ");
                let left = Self::print(*l);
                s.append(left.as_str());
                s.append(" ");
                let right = Self::print(*r);
                s.append(right.as_str());
                s.append(")");
                proof {
                    assert(s@ =~= "("@ + op@.lexeme + " "@ + left@ + " "@ + right@ + ")"@);
                }
                s
            },
            Expr::Grouping(e1) => {
                let mut s = String::from_str("(group ");
                let inner = Self::print(*e1);
                s.append(inner.as_str());
                s.append(")");
                proof {
                    assert(s@ =~= "(group "@ + inner@ + ")"@);
                }
                s
            },
            Expr::Literal(t) => match t.token_type {
                crate::lexer::types::TokenType::String(s) => s,
                crate::lexer::types::TokenType::Number(n) => n.to_decimal_string(),
                _ => String::from_str("not implemented"),
            },
        }
    }
}

} // verus!
