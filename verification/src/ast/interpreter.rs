//! The tree-walking evaluator: expression trees in, runtime values out,
//! under the language's dynamic typing rules.
//!
//! Numbers are exact rationals, so arithmetic either returns the exact
//! result or reports that it is out of range; division by zero is a
//! runtime error.  String comparison is lexicographic by character.

use vstd::prelude::*;

use crate::ast::expr::Expr;
use crate::ast::expr::ExprV;
use crate::lexer::types::TokKind;
use crate::lexer::types::TokenType;
use crate::numeric::rat_add;
use crate::numeric::rat_count;
use crate::numeric::rat_dec_str;
use crate::numeric::rat_div;
use crate::numeric::rat_eq;
use crate::numeric::rat_fits;
use crate::numeric::rat_le;
use crate::numeric::rat_lt;
use crate::numeric::rat_mul;
use crate::numeric::rat_sub;
use crate::numeric::Rat;
use crate::numeric::RatV;
use crate::text::seq_lex_lt;
use crate::text::seq_repeat;
use crate::text::str_lt;
use crate::text::str_repeat;

verus! {

/// A runtime value.
#[derive(Debug, PartialEq)]
pub enum Value {
    Number(Rat),
    String(String),
    Boolean(bool),
    Nil,
}

/// The mathematical shape of a runtime value.
pub enum ValV {
    Num(RatV),
    Str(Seq<char>),
    Bool(bool),
    Nil,
}

impl View for Value {
    type V = ValV;

    open spec fn view(&self) -> ValV {
        match self {
            Value::Number(n) => ValV::Num(n@),
            Value::String(s) => ValV::Str(s@),
            Value::Boolean(b) => ValV::Bool(*b),
            Value::Nil => ValV::Nil,
        }
    }
}

/// An error raised while evaluating: a type mismatch, a division by
/// zero, or a numeric result out of range.
#[derive(Debug)]
pub struct RuntimeError {
    pub message: String,
}

impl View for RuntimeError {
    type V = Seq<char>;

    open spec fn view(&self) -> Seq<char> {
        self.message@
    }
}

/// The debug rendering of a value, used inside error messages.
pub open spec fn val_dbg(v: ValV) -> Seq<char> {
    match v {
        ValV::Num(n) => "Number("@ + rat_dec_str(n) + ")"@,
        ValV::Str(s) => "String(\""@ + s + "\")"@,
        ValV::Bool(b) => if b {
            "Boolean(true)"@
        } else {
            "Boolean(false)"@
        },
        ValV::Nil => "Nil"@,
    }
}

/// Structural equality of two values: equal only within the same
/// variant, numbers by value, never an error.
pub open spec fn val_eq(a: ValV, b: ValV) -> bool {
    match (a, b) {
        (ValV::Num(x), ValV::Num(y)) => rat_eq(x, y),
        (ValV::Str(x), ValV::Str(y)) => x == y,
        (ValV::Bool(x), ValV::Bool(y)) => x == y,
        (ValV::Nil, ValV::Nil) => true,
        _ => false,
    }
}

/// The message for a non-number operand.
pub open spec fn expect_number_msg(v: ValV) -> Seq<char> {
    "Expected number value, got "@ + val_dbg(v)
}

/// The message for a non-boolean operand.
pub open spec fn expect_boolean_msg(v: ValV) -> Seq<char> {
    "Expected boolean value, got "@ + val_dbg(v)
}

/// The message for mismatched `+` operands.
pub open spec fn add_mismatch_msg(l: ValV, r: ValV) -> Seq<char> {
    "Cannot add values of different types: "@ + val_dbg(l) + " and "@ + val_dbg(r)
}

/// The message for mismatched `*` operands.
pub open spec fn mul_mismatch_msg(l: ValV, r: ValV) -> Seq<char> {
    "Cannot multiply values of different types: "@ + val_dbg(l) + " and "@ + val_dbg(r)
}

/// The message for mismatched relational operands.
pub open spec fn cmp_mismatch_msg(l: ValV, r: ValV) -> Seq<char> {
    "Cannot compare values of different types: "@ + val_dbg(l) + " and "@ + val_dbg(r)
}

/// The message for an identifier in literal position.
pub open spec fn ident_msg(s: Seq<char>) -> Seq<char> {
    "Variables are not supported: "@ + s
}

/// The message for a numeric result outside the representation.
pub open spec fn range_msg() -> Seq<char> {
    "Numeric result out of range"@
}

/// The message for a division by zero.
pub open spec fn div_zero_msg() -> Seq<char> {
    "Division by zero"@
}

/// The message for a tree that the grammar cannot produce.
pub open spec fn malformed_msg() -> Seq<char> {
    "Malformed expression tree"@
}

/// Evaluation of a literal node.
pub open spec fn spec_eval_literal(t: crate::lexer::token::TokView) -> Result<ValV, Seq<char>> {
    match t.kind {
        TokKind::StrLit(s) => Ok(ValV::Str(s)),
        TokKind::Num(v) => Ok(ValV::Num(v)),
        TokKind::True => Ok(ValV::Bool(true)),
        TokKind::False => Ok(ValV::Bool(false)),
        TokKind::Nil => Ok(ValV::Nil),
        TokKind::Ident(s) => Err(ident_msg(s)),
        _ => Err(malformed_msg()),
    }
}

/// Evaluation of a unary application: `-` needs a number, `!` needs a
/// boolean.
pub open spec fn spec_eval_unary(k: TokKind, v: ValV) -> Result<ValV, Seq<char>> {
    match k {
        TokKind::Minus => match v {
            ValV::Num(n) => Ok(ValV::Num(RatV { num: -n.num, den: n.den })),
            _ => Err(expect_number_msg(v)),
        },
        TokKind::Bang => match v {
            ValV::Bool(b) => Ok(ValV::Bool(!b)),
            _ => Err(expect_boolean_msg(v)),
        },
        _ => Err(malformed_msg()),
    }
}

/// Evaluation of a binary application, by operator.
pub open spec fn spec_eval_binary(k: TokKind, l: ValV, r: ValV) -> Result<ValV, Seq<char>> {
    match k {
        TokKind::Plus => match (l, r) {
            (ValV::Num(a), ValV::Num(b)) => if rat_fits(rat_add(a, b)) {
                Ok(ValV::Num(rat_add(a, b)))
            } else {
                Err(range_msg())
            },
            (ValV::Str(x), ValV::Str(y)) => Ok(ValV::Str(x + y)),
            _ => Err(add_mismatch_msg(l, r)),
        },
        TokKind::Minus => match (l, r) {
            (ValV::Num(a), ValV::Num(b)) => if rat_fits(rat_sub(a, b)) {
                Ok(ValV::Num(rat_sub(a, b)))
            } else {
                Err(range_msg())
            },
            (ValV::Num(_), _) => Err(expect_number_msg(r)),
            _ => Err(expect_number_msg(l)),
        },
        TokKind::Star => match (l, r) {
            (ValV::Num(a), ValV::Num(b)) => if rat_fits(rat_mul(a, b)) {
                Ok(ValV::Num(rat_mul(a, b)))
            } else {
                Err(range_msg())
            },
            (ValV::Str(x), ValV::Num(n)) => Ok(ValV::Str(seq_repeat(x, rat_count(n) as nat))),
            _ => Err(mul_mismatch_msg(l, r)),
        },
        TokKind::Slash => match (l, r) {
            (ValV::Num(a), ValV::Num(b)) => if b.num == 0 {
                Err(div_zero_msg())
            } else if rat_fits(rat_div(a, b)) {
                Ok(ValV::Num(rat_div(a, b)))
            } else {
                Err(range_msg())
            },
            (ValV::Num(_), _) => Err(expect_number_msg(r)),
            _ => Err(expect_number_msg(l)),
        },
        TokKind::Greater => match (l, r) {
            (ValV::Num(a), ValV::Num(b)) => Ok(ValV::Bool(rat_lt(b, a))),
            (ValV::Str(x), ValV::Str(y)) => Ok(ValV::Bool(seq_lex_lt(y, x))),
            _ => Err(cmp_mismatch_msg(l, r)),
        },
        TokKind::GreaterEqual => match (l, r) {
            (ValV::Num(a), ValV::Num(b)) => Ok(ValV::Bool(rat_le(b, a))),
            (ValV::Str(x), ValV::Str(y)) => Ok(ValV::Bool(!seq_lex_lt(x, y))),
            _ => Err(cmp_mismatch_msg(l, r)),
        },
        TokKind::Less => match (l, r) {
            (ValV::Num(a), ValV::Num(b)) => Ok(ValV::Bool(rat_lt(a, b))),
            (ValV::Str(x), ValV::Str(y)) => Ok(ValV::Bool(seq_lex_lt(x, y))),
            _ => Err(cmp_mismatch_msg(l, r)),
        },
        TokKind::LessEqual => match (l, r) {
            (ValV::Num(a), ValV::Num(b)) => Ok(ValV::Bool(rat_le(a, b))),
            (ValV::Str(x), ValV::Str(y)) => Ok(ValV::Bool(!seq_lex_lt(y, x))),
            _ => Err(cmp_mismatch_msg(l, r)),
        },
        TokKind::EqualEqual => Ok(ValV::Bool(val_eq(l, r))),
        TokKind::BangEqual => Ok(ValV::Bool(!val_eq(l, r))),
        _ => Err(malformed_msg()),
    }
}

/// Evaluation of a whole tree: children first, left to right, stopping
/// at the first error.
pub open spec fn spec_eval(e: ExprV) -> Result<ValV, Seq<char>>
    decreases e,
{
    match e {
        ExprV::Literal(t) => spec_eval_literal(t),
        ExprV::Grouping(e1) => spec_eval(*e1),
        ExprV::Unary(op, e1) => match spec_eval(*e1) {
            Ok(v) => spec_eval_unary(op.kind, v),
            Err(m) => Err(m),
        },
        ExprV::Binary(l, op, r) => match spec_eval(*l) {
            Ok(lv) => match spec_eval(*r) {
                Ok(rv) => spec_eval_binary(op.kind, lv, rv),
                Err(m) => Err(m),
            },
            Err(m) => Err(m),
        },
    }
}

/// The rendering of a value for the `evaluate` command: numbers in
/// decimal with trailing zeros trimmed, strings without quotes,
/// `true`/`false`, `nil`.
pub open spec fn val_display(v: ValV) -> Seq<char> {
    match v {
        ValV::Num(n) => rat_dec_str(n),
        ValV::Str(s) => s,
        ValV::Bool(b) => if b {
            "true"@
        } else {
            "false"@
        },
        ValV::Nil => "nil"@,
    }
}

impl Value {
    /// The number inside, or the type-mismatch error.
    pub fn expect_number(&self) -> (r: Result<Rat, RuntimeError>)
        ensures
            match r {
                Ok(n) => self@ matches ValV::Num(v) && v == n@,
                Err(e) => !(self@ is Num) && e@ == expect_number_msg(self@),
            },
    {
        match self {
            Value::Number(num) => Ok(*num),
            _ => {
                let mut s = String::from_str("Expected number value, got ");
                let dbg = self.debug_string();
                s.append(dbg.as_str());
                proof {
                    assert(s@ =~= expect_number_msg(self@));
                }
                Err(RuntimeError { message: s })
            },
        }
    }

    /// The boolean inside, or the type-mismatch error.
    pub fn expect_boolean(&self) -> (r: Result<bool, RuntimeError>)
        ensures
            match r {
                Ok(b) => self@ == ValV::Bool(b),
                Err(e) => !(self@ is Bool) && e@ == expect_boolean_msg(self@),
            },
    {
        match self {
            Value::Boolean(b) => Ok(*b),
            _ => {
                let mut s = String::from_str("Expected boolean value, got ");
                let dbg = self.debug_string();
                s.append(dbg.as_str());
                proof {
                    assert(s@ =~= expect_boolean_msg(self@));
                }
                Err(RuntimeError { message: s })
            },
        }
    }

    /// Structural equality with another value; see [`val_eq`].
    pub fn equals(&self, other: &Value) -> (r: bool)
        ensures
            r == val_eq(self@, other@),
    {
        match (self, other) {
            (Value::Number(x), Value::Number(y)) => x.eq_val(y),
            (Value::String(x), Value::String(y)) => crate::text::str_eq(x.as_str(), y.as_str()),
            (Value::Boolean(x), Value::Boolean(y)) => x == y,
            (Value::Nil, Value::Nil) => true,
            _ => false,
        }
    }

    /// The debug rendering, used inside error messages.
    pub fn debug_string(&self) -> (r: String)
        ensures
            r@ == val_dbg(self@),
    {
        match self {
            Value::Number(n) => {
                let mut s = String::from_str("Number(");
                let d = n.to_decimal_string();
                s.append(d.as_str());
                s.append(")");
                proof {
                    reveal_strlit(")");
                    assert(s@ =~= val_dbg(self@));
                }
                s
            },
            Value::String(text) => {
                let mut s = String::from_str("String(\"");
                s.append(text.as_str());
                s.append("\")");
                proof {
                    reveal_strlit("\")");
                    assert(s@ =~= val_dbg(self@));
                }
                s
            },
            Value::Boolean(b) => {
                if *b {
                    String::from_str("Boolean(true)")
                } else {
                    String::from_str("Boolean(false)")
                }
            },
            Value::Nil => String::from_str("Nil"),
        }
    }

    /// The rendering for the `evaluate` command; see [`val_display`].
    pub fn to_display_string(&self) -> (r: String)
        ensures
            r@ == val_display(self@),
    {
        match self {
            Value::Number(n) => n.to_decimal_string(),
            Value::String(s) => s.clone(),
            Value::Boolean(b) => {
                if *b {
                    String::from_str("true")
                } else {
                    String::from_str("false")
                }
            },
            Value::Nil => String::from_str("nil"),
        }
    }
}

/// The tree-walking evaluator.  Pure with respect to the tree: no
/// mutation, no external state.
pub struct Interpreter {}

impl Interpreter {
    /// Evaluates a tree to a runtime value, or to the first error
    /// raised, exactly as [`spec_eval`] says.
    pub fn evaluate(&self, expr: &Expr) -> (r: Result<Value, RuntimeError>)
        ensures
            match r {
                Ok(v) => spec_eval(expr@) == Ok::<ValV, Seq<char>>(v@),
                Err(e) => spec_eval(expr@) == Err::<ValV, Seq<char>>(e@),
            },
        decreases expr,
    {
        match expr {
            Expr::Literal(t) => match &t.token_type {
                TokenType::String(s) => Ok(Value::String(s.clone())),
                TokenType::Number(n) => Ok(Value::Number(*n)),
                TokenType::TRUE => Ok(Value::Boolean(true)),
                TokenType::FALSE => Ok(Value::Boolean(false)),
                TokenType::NIL => Ok(Value::Nil),
                TokenType::Identifier(s) => {
                    let mut m = String::from_str("Variables are not supported: ");
                    m.append(s.as_str());
                    proof {
                        assert(m@ =~= ident_msg(s@));
                    }
                    Err(RuntimeError { message: m })
                },
                _ => Err(
                    RuntimeError { message: String::from_str("Malformed expression tree") },
                ),
            },
            Expr::Grouping(e1) => self.evaluate(e1),
            Expr::Unary(op, e1) => {
                let v = match self.evaluate(e1) {
                    Ok(v) => v,
                    Err(e) => {
                        return Err(e);
                    },
                };
                match &op.token_type {
                    TokenType::Minus => match v.expect_number() {
                        Ok(n) => Ok(Value::Number(n.negate())),
                        Err(e) => Err(e),
                    },
                    TokenType::Bang => match v.expect_boolean() {
                        Ok(b) => Ok(Value::Boolean(!b)),
                        Err(e) => Err(e),
                    },
                    _ => Err(
                        RuntimeError { message: String::from_str("Malformed expression tree") },
                    ),
                }
            },
            Expr::Binary(l, op, r) => {
                let lv = match self.evaluate(l) {
                    Ok(v) => v,
                    Err(e) => {
                        return Err(e);
                    },
                };
                let rv = match self.evaluate(r) {
                    Ok(v) => v,
                    Err(e) => {
                        return Err(e);
                    },
                };
                self.apply_binary(op, lv, rv)
            },
        }
    }

    /// Applies a binary operator to two already-evaluated operands.
    fn apply_binary(&self, op: &crate::lexer::token::Token, lv: Value, rv: Value) -> (r: Result<
        Value,
        RuntimeError,
    >)
        ensures
            match r {
                Ok(v) => spec_eval_binary(op@.kind, lv@, rv@) == Ok::<ValV, Seq<char>>(v@),
                Err(e) => spec_eval_binary(op@.kind, lv@, rv@) == Err::<ValV, Seq<char>>(e@),
            },
    {
        match &op.token_type {
            TokenType::Plus => match (&lv, &rv) {
                (Value::Number(a), Value::Number(b)) => match a.add(b) {
                    Some(s) => Ok(Value::Number(s)),
                    None => Err(
                        RuntimeError { message: String::from_str("Numeric result out of range") },
                    ),
                },
                (Value::String(x), Value::String(y)) => {
                    let mut s = x.clone();
                    s.append(y.as_str());
                    Ok(Value::String(s))
                },
                _ => Err(RuntimeError { message: Self::mismatch("Cannot add values of different types: ", &lv, &rv) }),
            },
            TokenType::Minus => {
                let a = match lv.expect_number() {
                    Ok(n) => n,
                    Err(e) => {
                        return Err(e);
                    },
                };
                let b = match rv.expect_number() {
                    Ok(n) => n,
                    Err(e) => {
                        return Err(e);
                    },
                };
                match a.sub(&b) {
                    Some(s) => Ok(Value::Number(s)),
                    None => Err(
                        RuntimeError { message: String::from_str("Numeric result out of range") },
                    ),
                }
            },
            TokenType::Star => match (&lv, &rv) {
                (Value::Number(a), Value::Number(b)) => match a.mul(b) {
                    Some(s) => Ok(Value::Number(s)),
                    None => Err(
                        RuntimeError { message: String::from_str("Numeric result out of range") },
                    ),
                },
                (Value::String(x), Value::Number(n)) => {
                    let count = n.to_count();
                    Ok(Value::String(str_repeat(x.as_str(), count)))
                },
                _ => Err(RuntimeError { message: Self::mismatch("Cannot multiply values of different types: ", &lv, &rv) }),
            },
            TokenType::Slash => {
                let a = match lv.expect_number() {
                    Ok(n) => n,
                    Err(e) => {
                        return Err(e);
                    },
                };
                let b = match rv.expect_number() {
                    Ok(n) => n,
                    Err(e) => {
                        return Err(e);
                    },
                };
                if b.is_zero() {
                    return Err(RuntimeError { message: String::from_str("Division by zero") });
                }
                match a.div(&b) {
                    Some(s) => Ok(Value::Number(s)),
                    None => Err(
                        RuntimeError { message: String::from_str("Numeric result out of range") },
                    ),
                }
            },
            TokenType::Greater => match (&lv, &rv) {
                (Value::Number(a), Value::Number(b)) => Ok(Value::Boolean(b.lt(a))),
                (Value::String(x), Value::String(y)) => Ok(
                    Value::Boolean(str_lt(y.as_str(), x.as_str())),
                ),
                _ => Err(RuntimeError { message: Self::mismatch("Cannot compare values of different types: ", &lv, &rv) }),
            },
            TokenType::GreaterEqual => match (&lv, &rv) {
                (Value::Number(a), Value::Number(b)) => Ok(Value::Boolean(b.le(a))),
                (Value::String(x), Value::String(y)) => Ok(
                    Value::Boolean(!str_lt(x.as_str(), y.as_str())),
                ),
                _ => Err(RuntimeError { message: Self::mismatch("Cannot compare values of different types: ", &lv, &rv) }),
            },
            TokenType::Less => match (&lv, &rv) {
                (Value::Number(a), Value::Number(b)) => Ok(Value::Boolean(a.lt(b))),
                (Value::String(x), Value::String(y)) => Ok(
                    Value::Boolean(str_lt(x.as_str(), y.as_str())),
                ),
                _ => Err(RuntimeError { message: Self::mismatch("Cannot compare values of different types: ", &lv, &rv) }),
            },
            TokenType::LessEqual => match (&lv, &rv) {
                (Value::Number(a), Value::Number(b)) => Ok(Value::Boolean(a.le(b))),
                (Value::String(x), Value::String(y)) => Ok(
                    Value::Boolean(!str_lt(y.as_str(), x.as_str())),
                ),
                _ => Err(RuntimeError { message: Self::mismatch("Cannot compare values of different types: ", &lv, &rv) }),
            },
            TokenType::EqualEqual => Ok(Value::Boolean(lv.equals(&rv))),
            TokenType::BangEqual => Ok(Value::Boolean(!lv.equals(&rv))),
            _ => Err(RuntimeError { message: String::from_str("Malformed expression tree") }),
        }
    }

    /// Builds a two-operand mismatch message from its prefix.
    fn mismatch(prefix: &str, l: &Value, r: &Value) -> (m: String)
        ensures
            m@ == prefix@ + val_dbg(l@) + " and "@ + val_dbg(r@),
    {
        let mut s = prefix.to_owned();
        let ld = l.debug_string();
        s.append(ld.as_str());
        s.append(" and ");
        let rd = r.debug_string();
        s.append(rd.as_str());
        proof {
            assert(s@ =~= prefix@ + val_dbg(l@) + " and "@ + val_dbg(r@));
        }
        s
    }
}

} // verus!
