//! The recursive-descent parser: a token vector in, an expression tree
//! or a parser error out.
//!
//! The specification side is a functional parser over the token views,
//! one spec function per precedence level, mirroring the grammar
//!
//! ```text
//! expression  -> equality
//! equality    -> comparison ( ( "==" | "!=" ) comparison )*
//! comparison  -> term       ( ( ">" | ">=" | "<" | "<=" ) term )*
//! term        -> factor     ( ( "+" | "-" ) factor )*
//! factor      -> unary      ( ( "*" | "/" ) unary )*
//! unary       -> ( "!" | "-" ) unary | primary
//! primary     -> NUMBER | STRING | IDENTIFIER | "true" | "false"
//!              | "nil" | "(" expression ")"
//! ```
//!
//! with every binary level folded to the left.  The executable parser is
//! proved to return exactly what the specification says, error cases
//! included, and every tree it emits is [`grammatical`].

use vstd::prelude::*;

use crate::ast::expr::grammatical;
use crate::ast::expr::Expr;
use crate::ast::expr::ExprV;
use crate::ast::printer::spec_print;
use crate::ast::printer::AstPrinter;
use crate::lexer::lexer::views_of;
use crate::lexer::token::TokView;
use crate::lexer::token::Token;
use crate::lexer::types::kind_name;
use crate::lexer::types::tt_matches;
use crate::lexer::types::TokKind;
use crate::lexer::types::TokenType;
use crate::text::dec_digits;
use crate::text::push_u64;

verus! {

/// A parse failure: a message and the position of the offending token
/// (or 0:0 when the token vector ran out).
#[derive(Debug)]
pub struct ParserError {
    pub message: String,
    pub line: usize,
    pub character: usize,
}

/// The mathematical shape of a parse failure.
pub struct PErrV {
    pub message: Seq<char>,
    pub line: int,
    pub character: int,
}

impl View for ParserError {
    type V = PErrV;

    open spec fn view(&self) -> PErrV {
        PErrV {
            message: self.message@,
            line: self.line as int,
            character: self.character as int,
        }
    }
}

/// What a parsing step returns: the tree built and the position just
/// past it, or the error that aborted the parse.
pub type PRes = Result<(ExprV, int), PErrV>;

/// The token at `pos`, if any.
pub open spec fn spec_peek(toks: Seq<TokView>, pos: int) -> Option<TokView> {
    if 0 <= pos < toks.len() {
        Some(toks[pos])
    } else {
        None
    }
}

/// Whether `k` matches one of the expected kinds.
pub open spec fn kind_in(k: TokKind, expected: Seq<TokKind>) -> bool {
    exists|i: int| 0 <= i < expected.len() && tt_matches(k, expected[i])
}

/// The names of the expected kinds after the first, each preceded by a
/// separator.
pub open spec fn rest_names(ks: Seq<TokKind>, i: int) -> Seq<char>
    decreases ks.len() - i,
{
    if i < 0 || i >= ks.len() {
        Seq::empty()
    } else {
        ", "@ + kind_name(ks[i]) + rest_names(ks, i + 1)
    }
}

/// The comma-separated names of a list of kinds.
pub open spec fn names_join(ks: Seq<TokKind>) -> Seq<char> {
    if ks.len() == 0 {
        Seq::empty()
    } else {
        kind_name(ks[0]) + rest_names(ks, 1)
    }
}

/// The message for a token that fails an expectation.
pub open spec fn expect_msg(expected: Seq<TokKind>, got: TokKind) -> Seq<char> {
    "Expected one of types "@ + names_join(expected) + ", but got "@ + kind_name(got)
}

/// The error for a token vector exhausted where a closing parenthesis
/// was required.
pub open spec fn expect_eof_err() -> PErrV {
    PErrV {
        message: "Expected a ) to close the expression, but arrived at EOF"@,
        line: 0,
        character: 0,
    }
}

/// The message for a token that cannot start a primary expression.
pub open spec fn primary_msg(got: TokKind) -> Seq<char> {
    "Unexpected type of token, expected a literal but got "@ + kind_name(got)
}

/// The error for a token vector exhausted where a primary expression
/// was required.
pub open spec fn primary_eof_err() -> PErrV {
    PErrV { message: "Unexpected end of file"@, line: 0, character: 0 }
}

/// Demands a token of one of the expected kinds at `pos`: the position
/// past it on success, the describing error otherwise.
pub open spec fn spec_expect(toks: Seq<TokView>, pos: int, expected: Seq<TokKind>) -> Result<
    int,
    PErrV,
> {
    match spec_peek(toks, pos) {
        None => Err(expect_eof_err()),
        Some(t) => if kind_in(t.kind, expected) {
            Ok(pos + 1)
        } else {
            Err(PErrV { message: expect_msg(expected, t.kind), line: t.line, character: t.character }
            )
        },
    }
}

/// Consumes a token of one of the expected kinds at `pos` if one is
/// there; `None` leaves the position as it is.
pub open spec fn spec_matches(toks: Seq<TokView>, pos: int, expected: Seq<TokKind>) -> Option<
    (TokView, int),
> {
    match spec_peek(toks, pos) {
        Some(t) => if kind_in(t.kind, expected) {
            Some((t, pos + 1))
        } else {
            None
        },
        None => None,
    }
}

/// The operators of the equality level.
pub open spec fn equality_ops() -> Seq<TokKind> {
    seq![TokKind::EqualEqual, TokKind::BangEqual]
}

/// The operators of the comparison level.
pub open spec fn comparison_ops() -> Seq<TokKind> {
    seq![TokKind::Greater, TokKind::GreaterEqual, TokKind::Less, TokKind::LessEqual]
}

/// The operators of the term level.
pub open spec fn term_ops() -> Seq<TokKind> {
    seq![TokKind::Plus, TokKind::Minus]
}

/// The operators of the factor level.
pub open spec fn factor_ops() -> Seq<TokKind> {
    seq![TokKind::Star, TokKind::Slash]
}

/// The operators of the unary level.
pub open spec fn unary_ops() -> Seq<TokKind> {
    seq![TokKind::Bang, TokKind::Minus]
}

/// Parsing an expression: the whole grammar, lowest precedence first.
pub open spec fn spec_expression(toks: Seq<TokView>, pos: int) -> PRes
    decreases toks.len() - pos, 12int,
{
    spec_equality(toks, pos)
}

/// Parsing the equality level.
pub open spec fn spec_equality(toks: Seq<TokView>, pos: int) -> PRes
    decreases toks.len() - pos, 11int,
{
    match spec_comparision(toks, pos) {
        Err(e) => Err(e),
        Ok((e, p)) => if pos <= p <= toks.len() {
            spec_eq_tail(toks, e, p)
        } else {
            Ok((e, p))
        },
    }
}

/// Folding further `==` / `!=` applications onto `acc`, left to right.
pub open spec fn spec_eq_tail(toks: Seq<TokView>, acc: ExprV, pos: int) -> PRes
    decreases toks.len() - pos, 10int,
{
    match spec_matches(toks, pos, equality_ops()) {
        None => Ok((acc, pos)),
        Some((op, p1)) => match spec_comparision(toks, p1) {
            Err(e) => Err(e),
            Ok((right, p2)) => {
                let b = ExprV::Binary(Box::new(acc), op, Box::new(right));
                if pos < p2 <= toks.len() {
                    spec_eq_tail(toks, b, p2)
                } else {
                    Ok((b, p2))
                }
            },
        },
    }
}

/// Parsing the comparison level.
pub open spec fn spec_comparision(toks: Seq<TokView>, pos: int) -> PRes
    decreases toks.len() - pos, 9int,
{
    match spec_term(toks, pos) {
        Err(e) => Err(e),
        Ok((e, p)) => if pos <= p <= toks.len() {
            spec_cmp_tail(toks, e, p)
        } else {
            Ok((e, p))
        },
    }
}

/// Folding further relational applications onto `acc`, left to right.
pub open spec fn spec_cmp_tail(toks: Seq<TokView>, acc: ExprV, pos: int) -> PRes
    decreases toks.len() - pos, 8int,
{
    match spec_matches(toks, pos, comparison_ops()) {
        None => Ok((acc, pos)),
        Some((op, p1)) => match spec_term(toks, p1) {
            Err(e) => Err(e),
            Ok((right, p2)) => {
                let b = ExprV::Binary(Box::new(acc), op, Box::new(right));
                if pos < p2 <= toks.len() {
                    spec_cmp_tail(toks, b, p2)
                } else {
                    Ok((b, p2))
                }
            },
        },
    }
}

/// Parsing the term level.
pub open spec fn spec_term(toks: Seq<TokView>, pos: int) -> PRes
    decreases toks.len() - pos, 7int,
{
    match spec_factor(toks, pos) {
        Err(e) => Err(e),
        Ok((e, p)) => if pos <= p <= toks.len() {
            spec_term_tail(toks, e, p)
        } else {
            Ok((e, p))
        },
    }
}

/// Folding further `+` / `-` applications onto `acc`, left to right.
pub open spec fn spec_term_tail(toks: Seq<TokView>, acc: ExprV, pos: int) -> PRes
    decreases toks.len() - pos, 6int,
{
    match spec_matches(toks, pos, term_ops()) {
        None => Ok((acc, pos)),
        Some((op, p1)) => match spec_factor(toks, p1) {
            Err(e) => Err(e),
            Ok((right, p2)) => {
                let b = ExprV::Binary(Box::new(acc), op, Box::new(right));
                if pos < p2 <= toks.len() {
                    spec_term_tail(toks, b, p2)
                } else {
                    Ok((b, p2))
                }
            },
        },
    }
}

/// Parsing the factor level.
pub open spec fn spec_factor(toks: Seq<TokView>, pos: int) -> PRes
    decreases toks.len() - pos, 5int,
{
    match spec_unary(toks, pos) {
        Err(e) => Err(e),
        Ok((e, p)) => if pos <= p <= toks.len() {
            spec_fac_tail(toks, e, p)
        } else {
            Ok((e, p))
        },
    }
}

/// Folding further `*` / `/` applications onto `acc`, left to right.
pub open spec fn spec_fac_tail(toks: Seq<TokView>, acc: ExprV, pos: int) -> PRes
    decreases toks.len() - pos, 4int,
{
    match spec_matches(toks, pos, factor_ops()) {
        None => Ok((acc, pos)),
        Some((op, p1)) => match spec_unary(toks, p1) {
            Err(e) => Err(e),
            Ok((right, p2)) => {
                let b = ExprV::Binary(Box::new(acc), op, Box::new(right));
                if pos < p2 <= toks.len() {
                    spec_fac_tail(toks, b, p2)
                } else {
                    Ok((b, p2))
                }
            },
        },
    }
}

/// Parsing the unary level: right-associative by its natural recursion.
pub open spec fn spec_unary(toks: Seq<TokView>, pos: int) -> PRes
    decreases toks.len() - pos, 3int,
{
    match spec_matches(toks, pos, unary_ops()) {
        None => spec_primary(toks, pos),
        Some((op, p1)) => match spec_unary(toks, p1) {
            Err(e) => Err(e),
            Ok((e, p2)) => Ok((ExprV::Unary(op, Box::new(e)), p2)),
        },
    }
}

/// Parsing a primary expression: a literal, or a parenthesized
/// expression that must be closed.
pub open spec fn spec_primary(toks: Seq<TokView>, pos: int) -> PRes
    decreases toks.len() - pos, 2int,
{
    match spec_peek(toks, pos) {
        None => Err(primary_eof_err()),
        Some(t) => match t.kind {
            TokKind::StrLit(_) | TokKind::Num(_) | TokKind::Ident(_) | TokKind::True
                | TokKind::False | TokKind::Nil => Ok((ExprV::Literal(t), pos + 1)),
            TokKind::LeftParen => match spec_expression(toks, pos + 1) {
                Err(e) => Err(e),
                Ok((e, p2)) => match spec_expect(toks, p2, seq![TokKind::RightParen]) {
                    Err(pe) => Err(pe),
                    Ok(p3) => Ok((ExprV::Grouping(Box::new(e)), p3)),
                },
            },
            _ => Err(
                PErrV { message: primary_msg(t.kind), line: t.line, character: t.character },
            ),
        },
    }
}

/// The rendering of a parse of the whole vector: the printed tree, or
/// the error formatted with its position.
pub open spec fn spec_print_result(toks: Seq<TokView>, pos: int) -> Seq<char> {
    match spec_expression(toks, pos) {
        Ok((e, _)) => spec_print(e),
        Err(pe) => "Error at line "@ + dec_digits(pe.line as nat) + ":"@ + dec_digits(
            pe.character as nat,
        ) + ": "@ + pe.message,
    }
}

/// The views of a list of token kinds.
pub open spec fn kinds_of(ts: Seq<TokenType>) -> Seq<TokKind> {
    ts.map_values(|t: TokenType| t@)
}

impl ParserError {
    /// An error at the given token's position (0:0 when there is none).
    fn new(token: Option<&Token>, message: &str) -> (e: ParserError)
        ensures
            e@.message == message@,
            e@.line == match token {
                Some(t) => t@.line,
                None => 0int,
            },
            e@.character == match token {
                Some(t) => t@.character,
                None => 0int,
            },
    {
        match token {
            Some(t) => ParserError {
                message: message.to_owned(),
                line: t.line,
                character: t.character,
            },
            None => ParserError { message: message.to_owned(), line: 0, character: 0 },
        }
    }
}

/// The parser's state: the token vector and the cursor.
#[derive(Debug)]
pub struct SyntaxTree {
    tokens: Vec<Token>,
    current: usize,
}

impl SyntaxTree {
    /// The views of the tokens being parsed.
    pub closed spec fn toks(&self) -> Seq<TokView> {
        views_of(self.tokens@)
    }

    /// The cursor position.
    pub closed spec fn pos(&self) -> int {
        self.current as int
    }

    /// The cursor is within the vector.
    pub closed spec fn wf(&self) -> bool {
        self.current <= self.tokens@.len()
    }

    /// A parser over the given token vector, starting at the front.
    pub fn new(tokens: Vec<Token>) -> (s: SyntaxTree)
        ensures
            s.wf(),
            s.toks() == views_of(tokens@),
            s.pos() == 0,
    {
        SyntaxTree { tokens, current: 0 }
    }

    /// Returns the next token without consuming it.
    fn peek(&self) -> (r: Option<Token>)
        requires
            self.wf(),
        ensures
            match r {
                Some(t) => spec_peek(self.toks(), self.pos()) == Some(t@),
                None => spec_peek(self.toks(), self.pos()) is None,
            },
    {
        if self.current < self.tokens.len() {
            Some(self.tokens[self.current].clone())
        } else {
            None
        }
    }

    /// Consumes the next token and returns it.
    fn consume(&mut self) -> (r: Option<Token>)
        requires
            old(self).wf(),
        ensures
            final(self).wf(),
            final(self).toks() == old(self).toks(),
            match r {
                Some(t) => spec_peek(old(self).toks(), old(self).pos()) == Some(t@)
                    && final(self).pos() == old(self).pos() + 1,
                None => spec_peek(old(self).toks(), old(self).pos()) is None && final(self).pos()
                    == old(self).pos(),
            },
    {
        let tok = self.peek();
        if tok.is_some() {
            let n = self.tokens.len();
            proof {
                assert(spec_peek(self.toks(), self.pos()) is Some);
                assert(self.toks().len() == self.tokens@.len());
                assert(self.current < n);
            }
            self.current = self.current + 1;
        }
        tok
    }

    /// Whether the token's kind matches one in the list.
    fn contains_type(expected_types: &[TokenType], t: &TokenType) -> (r: bool)
        ensures
            r == kind_in(t@, kinds_of(expected_types@)),
    {
        let ghost kinds = kinds_of(expected_types@);
        let n = expected_types.len();
        let mut i: usize = 0;
        while i < n
            invariant
                i <= n,
                n == expected_types@.len(),
                kinds == kinds_of(expected_types@),
                forall|k: int| 0 <= k < i ==> !tt_matches(t@, #[trigger] kinds[k]),
            decreases n - i,
        {
            if crate::lexer::types::token_type_eq(t, &expected_types[i]) {
                proof {
                    assert(tt_matches(t@, kinds[i as int]));
                }
                return true;
            }
            i = i + 1;
        }
        false
    }

    /// Builds the message for a failed expectation.
    fn expect_message(expected_types: &[TokenType], got: &Token) -> (m: String)
        ensures
            m@ == expect_msg(kinds_of(expected_types@), got@.kind),
    {
        let ghost kinds = kinds_of(expected_types@);
        let mut s = String::from_str("Expected one of types ");
        let n = expected_types.len();
        if n > 0 {
            let first = crate::lexer::types::name_of_type(&expected_types[0]);
            s.append(first.as_str());
            let ghost target = "Expected one of types "@ + names_join(kinds);
            let mut i: usize = 1;
            proof {
                assert(s@ + rest_names(kinds, 1) == target);
            }
            while i < n
                invariant
                    1 <= i <= n,
                    n == expected_types@.len(),
                    kinds == kinds_of(expected_types@),
                    s@ + rest_names(kinds, i as int) == target,
                decreases n - i,
            {
                s.append(", ");
                let name = crate::lexer::types::name_of_type(&expected_types[i]);
                s.append(name.as_str());
                proof {
                    assert(s@ + rest_names(kinds, i as int + 1) =~= target);
                }
                i = i + 1;
            }
            proof {
                assert(s@ =~= target);
            }
        }
        s.append(", but got ");
        let gn = got.get_name();
        s.append(gn.as_str());
        proof {
            assert(s@ =~= expect_msg(kinds, got@.kind));
        }
        s
    }

    /// Consumes the next token and demands that its kind is one of the
    /// expected ones.  Mismatching literal kinds compare payloads, so
    /// this is meant for the payload-free kinds.
    pub fn expect(&mut self, expected_types: &[TokenType]) -> (r: Result<(), ParserError>)
        requires
            old(self).wf(),
        ensures
            final(self).wf(),
            final(self).toks() == old(self).toks(),
            match r {
                Ok(_) => spec_expect(old(self).toks(), old(self).pos(), kinds_of(expected_types@))
                    == Ok::<int, PErrV>(final(self).pos()),
                Err(err) => spec_expect(
                    old(self).toks(),
                    old(self).pos(),
                    kinds_of(expected_types@),
                ) == Err::<int, PErrV>(err@),
            },
    {
        match self.consume() {
            None => Err(
                ParserError::new(None, "Expected a ) to close the expression, but arrived at EOF"),
            ),
            Some(token) => {
                if Self::contains_type(expected_types, &token.token_type) {
                    Ok(())
                } else {
                    let message = Self::expect_message(expected_types, &token);
                    Err(ParserError { message, line: token.line, character: token.character })
                }
            },
        }
    }

    /// Consumes the next token if its kind is one of the expected ones;
    /// otherwise the state is left as is.
    fn matches(&mut self, expected_types: &[TokenType]) -> (r: Option<Token>)
        requires
            old(self).wf(),
        ensures
            final(self).wf(),
            final(self).toks() == old(self).toks(),
            match r {
                Some(tok) => spec_matches(
                    old(self).toks(),
                    old(self).pos(),
                    kinds_of(expected_types@),
                ) == Some((tok@, final(self).pos())) && final(self).pos() == old(self).pos() + 1,
                None => spec_matches(old(self).toks(), old(self).pos(), kinds_of(expected_types@))
                    is None && final(self).pos() == old(self).pos(),
            },
    {
        match self.peek() {
            None => None,
            Some(token) => {
                if Self::contains_type(expected_types, &token.token_type) {
                    self.consume();
                    Some(token)
                } else {
                    None
                }
            },
        }
    }
}

impl SyntaxTree {
    /// Parses an expression.
    pub fn expression(&mut self) -> (r: Result<Expr, ParserError>)
        requires
            old(self).wf(),
        ensures
            final(self).wf(),
            final(self).toks() == old(self).toks(),
            match r {
                Ok(e) => spec_expression(old(self).toks(), old(self).pos()) == Ok::<
                    (ExprV, int),
                    PErrV,
                >((e@, final(self).pos())) && old(self).pos() < final(self).pos() <= old(
                    self,
                ).toks().len() && grammatical(e@),
                Err(err) => spec_expression(old(self).toks(), old(self).pos()) == Err::<
                    (ExprV, int),
                    PErrV,
                >(err@),
            },
        decreases self.toks().len() - self.pos(), 12int,
    {
        self.equality()
    }

    /// Parses an equality expression.
    fn equality(&mut self) -> (r: Result<Expr, ParserError>)
        requires
            old(self).wf(),
        ensures
            final(self).wf(),
            final(self).toks() == old(self).toks(),
            match r {
                Ok(e) => spec_equality(old(self).toks(), old(self).pos()) == Ok::<
                    (ExprV, int),
                    PErrV,
                >((e@, final(self).pos())) && old(self).pos() < final(self).pos() <= old(
                    self,
                ).toks().len() && grammatical(e@),
                Err(err) => spec_equality(old(self).toks(), old(self).pos()) == Err::<
                    (ExprV, int),
                    PErrV,
                >(err@),
            },
        decreases self.toks().len() - self.pos(), 11int,
    {
        let expr = match self.comparision() {
            Ok(e) => e,
            Err(e) => {
                return Err(e);
            },
        };
        self.eq_tail(expr)
    }

    /// Folds further `==` / `!=` applications onto `acc`, left to
    /// right.
    fn eq_tail(&mut self, acc: Expr) -> (r: Result<Expr, ParserError>)
        requires
            old(self).wf(),
            grammatical(acc@),
        ensures
            final(self).wf(),
            final(self).toks() == old(self).toks(),
            match r {
                Ok(e) => spec_eq_tail(old(self).toks(), acc@, old(self).pos()) == Ok::<
                    (ExprV, int),
                    PErrV,
                >((e@, final(self).pos())) && old(self).pos() <= final(self).pos() <= old(
                    self,
                ).toks().len() && grammatical(e@),
                Err(err) => spec_eq_tail(old(self).toks(), acc@, old(self).pos()) == Err::<
                    (ExprV, int),
                    PErrV,
                >(err@),
            },
        decreases self.toks().len() - self.pos(), 10int,
    {
        let ops = equality_op_types();
        let tok = match self.matches(ops.as_slice()) {
            None => {
                return Ok(acc);
            },
            Some(t) => t,
        };
        proof {
            let ks = equality_ops();
            let i = choose|i: int| 0 <= i < ks.len() && tt_matches(tok@.kind, ks[i]);
            crate::lexer::types::lemma_tt_matches_simple(tok@.kind, ks[i]);
        }
        let right = match self.comparision() {
            Ok(e) => e,
            Err(e) => {
                return Err(e);
            },
        };
        self.eq_tail(Expr::new_binary_expr(acc, tok, right))
    }

    /// Parses a comparision expression.
    fn comparision(&mut self) -> (r: Result<Expr, ParserError>)
        requires
            old(self).wf(),
        ensures
            final(self).wf(),
            final(self).toks() == old(self).toks(),
            match r {
                Ok(e) => spec_comparision(old(self).toks(), old(self).pos()) == Ok::<
                    (ExprV, int),
                    PErrV,
                >((e@, final(self).pos())) && old(self).pos() < final(self).pos() <= old(
                    self,
                ).toks().len() && grammatical(e@),
                Err(err) => spec_comparision(old(self).toks(), old(self).pos()) == Err::<
                    (ExprV, int),
                    PErrV,
                >(err@),
            },
        decreases self.toks().len() - self.pos(), 9int,
    {
        let expr = match self.term() {
            Ok(e) => e,
            Err(e) => {
                return Err(e);
            },
        };
        self.cmp_tail(expr)
    }

    /// Folds further relational applications onto `acc`, left to
    /// right.
    fn cmp_tail(&mut self, acc: Expr) -> (r: Result<Expr, ParserError>)
        requires
            old(self).wf(),
            grammatical(acc@),
        ensures
            final(self).wf(),
            final(self).toks() == old(self).toks(),
            match r {
                Ok(e) => spec_cmp_tail(old(self).toks(), acc@, old(self).pos()) == Ok::<
                    (ExprV, int),
                    PErrV,
                >((e@, final(self).pos())) && old(self).pos() <= final(self).pos() <= old(
                    self,
                ).toks().len() && grammatical(e@),
                Err(err) => spec_cmp_tail(old(self).toks(), acc@, old(self).pos()) == Err::<
                    (ExprV, int),
                    PErrV,
                >(err@),
            },
        decreases self.toks().len() - self.pos(), 8int,
    {
        let ops = comparison_op_types();
        let tok = match self.matches(ops.as_slice()) {
            None => {
                return Ok(acc);
            },
            Some(t) => t,
        };
        proof {
            let ks = comparison_ops();
            let i = choose|i: int| 0 <= i < ks.len() && tt_matches(tok@.kind, ks[i]);
            crate::lexer::types::lemma_tt_matches_simple(tok@.kind, ks[i]);
        }
        let right = match self.term() {
            Ok(e) => e,
            Err(e) => {
                return Err(e);
            },
        };
        self.cmp_tail(Expr::new_binary_expr(acc, tok, right))
    }

    /// Parses a term expression.
    fn term(&mut self) -> (r: Result<Expr, ParserError>)
        requires
            old(self).wf(),
        ensures
            final(self).wf(),
            final(self).toks() == old(self).toks(),
            match r {
                Ok(e) => spec_term(old(self).toks(), old(self).pos()) == Ok::<
                    (ExprV, int),
                    PErrV,
                >((e@, final(self).pos())) && old(self).pos() < final(self).pos() <= old(
                    self,
                ).toks().len() && grammatical(e@),
                Err(err) => spec_term(old(self).toks(), old(self).pos()) == Err::<
                    (ExprV, int),
                    PErrV,
                >(err@),
            },
        decreases self.toks().len() - self.pos(), 7int,
    {
        let expr = match self.factor() {
            Ok(e) => e,
            Err(e) => {
                return Err(e);
            },
        };
        self.term_tail(expr)
    }

    /// Folds further `+` / `-` applications onto `acc`, left to right.
    fn term_tail(&mut self, acc: Expr) -> (r: Result<Expr, ParserError>)
        requires
            old(self).wf(),
            grammatical(acc@),
        ensures
            final(self).wf(),
            final(self).toks() == old(self).toks(),
            match r {
                Ok(e) => spec_term_tail(old(self).toks(), acc@, old(self).pos()) == Ok::<
                    (ExprV, int),
                    PErrV,
                >((e@, final(self).pos())) && old(self).pos() <= final(self).pos() <= old(
                    self,
                ).toks().len() && grammatical(e@),
                Err(err) => spec_term_tail(old(self).toks(), acc@, old(self).pos()) == Err::<
                    (ExprV, int),
                    PErrV,
                >(err@),
            },
        decreases self.toks().len() - self.pos(), 6int,
    {
        let ops = term_op_types();
        let tok = match self.matches(ops.as_slice()) {
            None => {
                return Ok(acc);
            },
            Some(t) => t,
        };
        proof {
            let ks = term_ops();
            let i = choose|i: int| 0 <= i < ks.len() && tt_matches(tok@.kind, ks[i]);
            crate::lexer::types::lemma_tt_matches_simple(tok@.kind, ks[i]);
        }
        let right = match self.factor() {
            Ok(e) => e,
            Err(e) => {
                return Err(e);
            },
        };
        self.term_tail(Expr::new_binary_expr(acc, tok, right))
    }

    /// Parses a factor expression.
    fn factor(&mut self) -> (r: Result<Expr, ParserError>)
        requires
            old(self).wf(),
        ensures
            final(self).wf(),
            final(self).toks() == old(self).toks(),
            match r {
                Ok(e) => spec_factor(old(self).toks(), old(self).pos()) == Ok::<
                    (ExprV, int),
                    PErrV,
                >((e@, final(self).pos())) && old(self).pos() < final(self).pos() <= old(
                    self,
                ).toks().len() && grammatical(e@),
                Err(err) => spec_factor(old(self).toks(), old(self).pos()) == Err::<
                    (ExprV, int),
                    PErrV,
                >(err@),
            },
        decreases self.toks().len() - self.pos(), 5int,
    {
        let expr = match self.unary() {
            Ok(e) => e,
            Err(e) => {
                return Err(e);
            },
        };
        self.fac_tail(expr)
    }

    /// Folds further `*` / `/` applications onto `acc`, left to right.
    fn fac_tail(&mut self, acc: Expr) -> (r: Result<Expr, ParserError>)
        requires
            old(self).wf(),
            grammatical(acc@),
        ensures
            final(self).wf(),
            final(self).toks() == old(self).toks(),
            match r {
                Ok(e) => spec_fac_tail(old(self).toks(), acc@, old(self).pos()) == Ok::<
                    (ExprV, int),
                    PErrV,
                >((e@, final(self).pos())) && old(self).pos() <= final(self).pos() <= old(
                    self,
                ).toks().len() && grammatical(e@),
                Err(err) => spec_fac_tail(old(self).toks(), acc@, old(self).pos()) == Err::<
                    (ExprV, int),
                    PErrV,
                >(err@),
            },
        decreases self.toks().len() - self.pos(), 4int,
    {
        let ops = factor_op_types();
        let tok = match self.matches(ops.as_slice()) {
            None => {
                return Ok(acc);
            },
            Some(t) => t,
        };
        proof {
            let ks = factor_ops();
            let i = choose|i: int| 0 <= i < ks.len() && tt_matches(tok@.kind, ks[i]);
            crate::lexer::types::lemma_tt_matches_simple(tok@.kind, ks[i]);
        }
        let right = match self.unary() {
            Ok(e) => e,
            Err(e) => {
                return Err(e);
            },
        };
        self.fac_tail(Expr::new_binary_expr(acc, tok, right))
    }

    /// Parses a unary expression.
    fn unary(&mut self) -> (r: Result<Expr, ParserError>)
        requires
            old(self).wf(),
        ensures
            final(self).wf(),
            final(self).toks() == old(self).toks(),
            match r {
                Ok(e) => spec_unary(old(self).toks(), old(self).pos()) == Ok::<
                    (ExprV, int),
                    PErrV,
                >((e@, final(self).pos())) && old(self).pos() < final(self).pos() <= old(
                    self,
                ).toks().len() && grammatical(e@),
                Err(err) => spec_unary(old(self).toks(), old(self).pos()) == Err::<
                    (ExprV, int),
                    PErrV,
                >(err@),
            },
        decreases self.toks().len() - self.pos(), 3int,
    {
        let ops = unary_op_types();
        match self.matches(ops.as_slice()) {
            None => self.primary(),
            Some(tok) => {
                proof {
                    let ks = unary_ops();
                    let i = choose|i: int| 0 <= i < ks.len() && tt_matches(tok@.kind, ks[i]);
                    crate::lexer::types::lemma_tt_matches_simple(tok@.kind, ks[i]);
                }
                match self.unary() {
                    Ok(e) => Ok(Expr::new_unary_expr(tok, e)),
                    Err(e) => Err(e),
                }
            },
        }
    }

    /// Parses a primary expression.
    fn primary(&mut self) -> (r: Result<Expr, ParserError>)
        requires
            old(self).wf(),
        ensures
            final(self).wf(),
            final(self).toks() == old(self).toks(),
            match r {
                Ok(e) => spec_primary(old(self).toks(), old(self).pos()) == Ok::<
                    (ExprV, int),
                    PErrV,
                >((e@, final(self).pos())) && old(self).pos() < final(self).pos() <= old(
                    self,
                ).toks().len() && grammatical(e@),
                Err(err) => spec_primary(old(self).toks(), old(self).pos()) == Err::<
                    (ExprV, int),
                    PErrV,
                >(err@),
            },
        decreases self.toks().len() - self.pos(), 2int,
    {
        match self.consume() {
            None => Err(ParserError::new(None, "Unexpected end of file")),
            Some(token) => match &token.token_type {
                TokenType::String(_) | TokenType::Number(_) | TokenType::Identifier(_)
                    | TokenType::TRUE | TokenType::FALSE | TokenType::NIL => Ok(
                    Expr::Literal(token),
                ),
                TokenType::LeftParen => {
                    let expr = match self.expression() {
                        Ok(e) => e,
                        Err(e) => {
                            return Err(e);
                        },
                    };
                    let rp = rparen_types();
                    match self.expect(rp.as_slice()) {
                        Ok(_) => Ok(Expr::new_grouping_expr(expr)),
                        Err(e) => Err(e),
                    }
                },
                _ => {
                    let mut msg = String::from_str(
                        "Unexpected type of token, expected a literal but got ",
                    );
                    let got = token.get_name();
                    msg.append(got.as_str());
                    proof {
                        assert(msg@ =~= primary_msg(token@.kind));
                    }
                    Err(ParserError { message: msg, line: token.line, character: token.character })
                },
            },
        }
    }

    /// Prints the syntax tree generated from the source code, or the
    /// parse error formatted with its position.
    pub fn print(&mut self) -> (r: String)
        requires
            old(self).wf(),
        ensures
            r@ == spec_print_result(old(self).toks(), old(self).pos()),
    {
        match self.expression() {
            Ok(expr) => AstPrinter::print(expr),
            Err(err) => {
                let mut s = String::from_str("Error at line ");
                push_u64(&mut s, err.line as u64);
                s.append(":");
                push_u64(&mut s, err.character as u64);
                s.append(": ");
                s.append(err.message.as_str());
                proof {
                    assert(s@ =~= spec_print_result(old(self).toks(), old(self).pos()));
                }
                s
            },
        }
    }
}

/// The `==` / `!=` kinds.
fn equality_op_types() -> (v: Vec<TokenType>)
    ensures
        kinds_of(v@) == equality_ops(),
{
    let mut v: Vec<TokenType> = Vec::new();
    v.push(TokenType::EqualEqual);
    v.push(TokenType::BangEqual);
    proof {
        assert(kinds_of(v@) =~= equality_ops());
    }
    v
}

/// The relational kinds.
fn comparison_op_types() -> (v: Vec<TokenType>)
    ensures
        kinds_of(v@) == comparison_ops(),
{
    let mut v: Vec<TokenType> = Vec::new();
    v.push(TokenType::Greater);
    v.push(TokenType::GreaterEqual);
    v.push(TokenType::Less);
    v.push(TokenType::LessEqual);
    proof {
        assert(kinds_of(v@) =~= comparison_ops());
    }
    v
}

/// The `+` / `-` kinds.
fn term_op_types() -> (v: Vec<TokenType>)
    ensures
        kinds_of(v@) == term_ops(),
{
    let mut v: Vec<TokenType> = Vec::new();
    v.push(TokenType::Plus);
    v.push(TokenType::Minus);
    proof {
        assert(kinds_of(v@) =~= term_ops());
    }
    v
}

/// The `*` / `/` kinds.
fn factor_op_types() -> (v: Vec<TokenType>)
    ensures
        kinds_of(v@) == factor_ops(),
{
    let mut v: Vec<TokenType> = Vec::new();
    v.push(TokenType::Star);
    v.push(TokenType::Slash);
    proof {
        assert(kinds_of(v@) =~= factor_ops());
    }
    v
}

/// The `!` / `-` kinds.
fn unary_op_types() -> (v: Vec<TokenType>)
    ensures
        kinds_of(v@) == unary_ops(),
{
    let mut v: Vec<TokenType> = Vec::new();
    v.push(TokenType::Bang);
    v.push(TokenType::Minus);
    proof {
        assert(kinds_of(v@) =~= unary_ops());
    }
    v
}

/// The closing parenthesis, alone.
fn rparen_types() -> (v: Vec<TokenType>)
    ensures
        kinds_of(v@) == seq![TokKind::RightParen],
{
    let mut v: Vec<TokenType> = Vec::new();
    v.push(TokenType::RightParen);
    proof {
        assert(kinds_of(v@) =~= seq![TokKind::RightParen]);
    }
    v
}

} // verus!
