//! Crate-level laws: properties of the scanner and the parser that
//! reach across the individual functions' contracts, stated and proved
//! here once and for all inputs.

use vstd::prelude::*;

use crate::ast::expr::ExprV;
use crate::ast::syntax_tree::comparison_ops;
use crate::ast::syntax_tree::equality_ops;
use crate::ast::syntax_tree::factor_ops;
use crate::ast::syntax_tree::kind_in;
use crate::ast::syntax_tree::spec_cmp_tail;
use crate::ast::syntax_tree::spec_comparision;
use crate::ast::syntax_tree::spec_eq_tail;
use crate::ast::syntax_tree::spec_equality;
use crate::ast::syntax_tree::spec_expression;
use crate::ast::syntax_tree::spec_fac_tail;
use crate::ast::syntax_tree::spec_factor;
use crate::ast::syntax_tree::spec_matches;
use crate::ast::syntax_tree::spec_primary;
use crate::ast::syntax_tree::spec_term;
use crate::ast::syntax_tree::spec_term_tail;
use crate::ast::syntax_tree::spec_unary;
use crate::ast::syntax_tree::term_ops;
use crate::ast::syntax_tree::unary_ops;
use crate::ast::syntax_tree::PErrV;
use crate::ast::printer::spec_print;
use crate::lexer::types::lemma_tt_matches_simple;
use crate::numeric::frac_cap;
use crate::numeric::max_den;
use crate::numeric::frac_digit_seq;
use crate::numeric::rat_eq;
use crate::numeric::RatV;
use crate::text::dec_digits;
use crate::text::digit_char;
use crate::lexer::lexer::comment_end;
use crate::lexer::lexer::digit_end;
use crate::lexer::lexer::digits_val;
use crate::lexer::lexer::is_digit_char;
use crate::lexer::lexer::num_lit_val;
use crate::lexer::lexer::pow10_cap;
use crate::lexer::lexer::sat64;
use crate::lexer::lexer::is_ws;
use crate::lexer::lexer::scan_kind;
use crate::lexer::lexer::skip_trivia;
use crate::lexer::lexer::spec_token_at;
use crate::lexer::lexer::spec_tokens;
use crate::lexer::lexer::lemma_token_advances;
use crate::lexer::lexer::lemma_skip_trivia_bounds;
use crate::lexer::token::TokView;
use crate::lexer::types::TokKind;

verus! {

/// Text that the scanner may skip between tokens: a string of
/// whitespace and `//` line comments (a comment runs up to, but never
/// includes, the next newline).
pub open spec fn is_trivia(g: Seq<char>) -> bool
    decreases g.len(),
{
    if g.len() == 0 {
        true
    } else if is_ws(g[0]) {
        is_trivia(g.skip(1))
    } else if g.len() >= 2 && g[0] == '/' && g[1] == '/' {
        exists|k: int|
            2 <= k <= g.len() && (forall|m: int| 2 <= m < k ==> g[m] != '\n') && is_trivia(
                #[trigger] g.skip(k),
            )
    } else {
        false
    }
}

/// The concatenation of each token's preceding gap with its lexeme,
/// front to back, starting at `pos`.
pub open spec fn lexemes_with_gaps(s: Seq<char>, toks: Seq<TokView>, pos: int) -> Seq<char>
    decreases toks.len(),
{
    if toks.len() == 0 {
        Seq::empty()
    } else {
        let j = skip_trivia(s, pos);
        s.subrange(pos, j) + toks[0].lexeme + lexemes_with_gaps(
            s,
            toks.drop_first(),
            j + toks[0].lexeme.len(),
        )
    }
}

/// Everything up to a comment's end is not a newline.
proof fn lemma_comment_end_chars(s: Seq<char>, i: int)
    requires
        0 <= i <= s.len(),
    ensures
        forall|m: int| i <= m < comment_end(s, i) ==> s[m] != '\n',
        i <= comment_end(s, i) <= s.len(),
    decreases s.len() - i,
{
    if i < s.len() && s[i] != '\n' {
        lemma_comment_end_chars(s, i + 1);
    }
}

/// Whatever the scanner skips before a token is trivia: whitespace and
/// line comments, nothing else.
pub proof fn lemma_skipped_is_trivia(s: Seq<char>, pos: int)
    requires
        0 <= pos <= s.len(),
    ensures
        is_trivia(s.subrange(pos, skip_trivia(s, pos))),
    decreases s.len() - pos, 1int,
{
    lemma_skip_trivia_bounds(s, pos);
    let st = skip_trivia(s, pos);
    let g = s.subrange(pos, st);
    if pos < s.len() && is_ws(s[pos]) {
        lemma_skip_trivia_bounds(s, pos + 1);
        lemma_skipped_is_trivia(s, pos + 1);
        assert(g.skip(1) =~= s.subrange(pos + 1, st));
    } else if pos + 1 < s.len() && s[pos] == '/' && s[pos + 1] == '/' {
        let ce = comment_end(s, pos + 2);
        lemma_comment_end_chars(s, pos + 2);
        lemma_skip_trivia_bounds(s, ce);
        lemma_skipped_is_trivia(s, ce);
        let k = ce - pos;
        assert(g.skip(k) =~= s.subrange(ce, st));
        assert(forall|m: int| 2 <= m < k ==> g[m] != '\n');
        assert(2 <= k <= g.len() && (forall|m: int| 2 <= m < k ==> g[m] != '\n') && is_trivia(
            g.skip(k),
        ));
    } else {
        assert(g =~= Seq::<char>::empty());
    }
}

/// Scanning loses nothing: gluing each token's skipped gap and exact
/// lexeme back together, front to back, rebuilds the portion of the
/// source from `pos` on.
pub proof fn lemma_scan_rebuilds(s: Seq<char>, pos: int)
    requires
        0 <= pos <= s.len(),
    ensures
        lexemes_with_gaps(s, spec_tokens(s, pos), pos) == s.subrange(pos, s.len() as int),
    decreases s.len() - pos,
{
    lemma_token_advances(s, pos);
    lemma_skip_trivia_bounds(s, pos);
    let j = skip_trivia(s, pos);
    let (t, end) = spec_token_at(s, pos);
    let toks = spec_tokens(s, pos);
    assert(t.lexeme == s.subrange(j, end));
    if t.kind is Eof {
        assert(toks =~= seq![t]);
        assert(toks.drop_first() =~= Seq::<TokView>::empty());
        assert(t.lexeme.len() == 0);
        assert(lexemes_with_gaps(s, Seq::<TokView>::empty(), j + t.lexeme.len()) =~= Seq::<
            char,
        >::empty());
        assert(lexemes_with_gaps(s, toks, pos) =~= s.subrange(pos, s.len() as int));
    } else {
        let rest = spec_tokens(s, end);
        assert(toks =~= seq![t] + rest);
        assert(toks.drop_first() =~= rest);
        lemma_scan_rebuilds(s, end);
        assert(j + t.lexeme.len() == end);
        assert(lexemes_with_gaps(s, toks, pos) =~= s.subrange(pos, j) + s.subrange(j, end)
            + s.subrange(end, s.len() as int));
        assert(lexemes_with_gaps(s, toks, pos) =~= s.subrange(pos, s.len() as int));
    }
}

/// The source is the concatenation of the scanned tokens' lexemes and
/// the trivia between them: nothing is lost and nothing is invented.
pub proof fn lemma_scan_reconstructs_source(s: Seq<char>)
    ensures
        lexemes_with_gaps(s, spec_tokens(s, 0), 0) == s,
{
    lemma_scan_rebuilds(s, 0);
    assert(s.subrange(0, s.len() as int) =~= s);
}

/// The precedence level of a binary operator kind, from 1 (equality,
/// loosest) to 4 (factor, tightest); 0 for anything that is not a
/// binary operator of the grammar's ladder.
pub open spec fn level_of(k: TokKind) -> int {
    if k is EqualEqual || k is BangEqual {
        1
    } else if k is Greater || k is GreaterEqual || k is Less || k is LessEqual {
        2
    } else if k is Plus || k is Minus {
        3
    } else if k is Star || k is Slash {
        4
    } else {
        0
    }
}

/// Membership in each level's operator list is exactly having that
/// level.
proof fn lemma_level_membership(k: TokKind)
    ensures
        kind_in(k, equality_ops()) <==> level_of(k) == 1,
        kind_in(k, comparison_ops()) <==> level_of(k) == 2,
        kind_in(k, term_ops()) <==> level_of(k) == 3,
        kind_in(k, factor_ops()) <==> level_of(k) == 4,
        kind_in(k, unary_ops()) <==> (k is Bang || k is Minus),
{
    lemma_tt_matches_simple(k, TokKind::EqualEqual);
    lemma_tt_matches_simple(k, TokKind::BangEqual);
    lemma_tt_matches_simple(k, TokKind::Greater);
    lemma_tt_matches_simple(k, TokKind::GreaterEqual);
    lemma_tt_matches_simple(k, TokKind::Less);
    lemma_tt_matches_simple(k, TokKind::LessEqual);
    lemma_tt_matches_simple(k, TokKind::Plus);
    lemma_tt_matches_simple(k, TokKind::Minus);
    lemma_tt_matches_simple(k, TokKind::Star);
    lemma_tt_matches_simple(k, TokKind::Slash);
    lemma_tt_matches_simple(k, TokKind::Bang);
    assert(equality_ops()[0] == TokKind::EqualEqual && equality_ops()[1] == TokKind::BangEqual);
    assert(comparison_ops()[0] == TokKind::Greater && comparison_ops()[1]
        == TokKind::GreaterEqual && comparison_ops()[2] == TokKind::Less && comparison_ops()[3]
        == TokKind::LessEqual);
    assert(term_ops()[0] == TokKind::Plus && term_ops()[1] == TokKind::Minus);
    assert(factor_ops()[0] == TokKind::Star && factor_ops()[1] == TokKind::Slash);
    assert(unary_ops()[0] == TokKind::Bang && unary_ops()[1] == TokKind::Minus);
}

/// A number token alone parses as a literal at every level whose
/// operators do not continue after it.
proof fn lemma_unary_num(toks: Seq<TokView>, p: int)
    requires
        0 <= p < toks.len(),
        toks[p].kind is Num,
    ensures
        spec_unary(toks, p) == Ok::<(ExprV, int), PErrV>((ExprV::Literal(toks[p]), p + 1)),
{
    lemma_level_membership(toks[p].kind);
    assert(spec_matches(toks, p, unary_ops()) is None);
    assert(spec_primary(toks, p) == Ok::<(ExprV, int), PErrV>((ExprV::Literal(toks[p]), p + 1)));
}

/// A number atom at the factor level: nothing of factor strength
/// follows, so the literal is the whole factor.
proof fn lemma_factor_atom(toks: Seq<TokView>, p: int)
    requires
        0 <= p < toks.len(),
        toks.len() <= p + 1 || level_of(toks[p + 1].kind) != 4,
        toks[p].kind is Num,
    ensures
        spec_factor(toks, p) == Ok::<(ExprV, int), PErrV>((ExprV::Literal(toks[p]), p + 1)),
{
    lemma_unary_num(toks, p);
    if p + 1 < toks.len() {
        lemma_level_membership(toks[p + 1].kind);
    }
    assert(spec_matches(toks, p + 1, factor_ops()) is None);
    assert(spec_fac_tail(toks, ExprV::Literal(toks[p]), p + 1) == Ok::<(ExprV, int), PErrV>((
        ExprV::Literal(toks[p]),
        p + 1,
    )));
}

/// A number atom at the term level.
proof fn lemma_term_atom(toks: Seq<TokView>, p: int)
    requires
        0 <= p < toks.len(),
        toks.len() <= p + 1 || !(level_of(toks[p + 1].kind) == 3 || level_of(toks[p + 1].kind)
            == 4),
        toks[p].kind is Num,
    ensures
        spec_term(toks, p) == Ok::<(ExprV, int), PErrV>((ExprV::Literal(toks[p]), p + 1)),
{
    lemma_factor_atom(toks, p);
    if p + 1 < toks.len() {
        lemma_level_membership(toks[p + 1].kind);
    }
    assert(spec_matches(toks, p + 1, term_ops()) is None);
    assert(spec_term_tail(toks, ExprV::Literal(toks[p]), p + 1) == Ok::<(ExprV, int), PErrV>((
        ExprV::Literal(toks[p]),
        p + 1,
    )));
}

/// A number atom at the comparison level.
proof fn lemma_cmp_atom(toks: Seq<TokView>, p: int)
    requires
        0 <= p < toks.len(),
        toks.len() <= p + 1 || level_of(toks[p + 1].kind) <= 1,
        toks[p].kind is Num,
    ensures
        spec_comparision(toks, p) == Ok::<(ExprV, int), PErrV>((ExprV::Literal(toks[p]), p + 1)),
{
    lemma_term_atom(toks, p);
    if p + 1 < toks.len() {
        lemma_level_membership(toks[p + 1].kind);
    }
    assert(spec_matches(toks, p + 1, comparison_ops()) is None);
    assert(spec_cmp_tail(toks, ExprV::Literal(toks[p]), p + 1) == Ok::<(ExprV, int), PErrV>((
        ExprV::Literal(toks[p]),
        p + 1,
    )));
}

/// A number atom at the equality level.
proof fn lemma_eq_atom(toks: Seq<TokView>, p: int)
    requires
        0 <= p < toks.len(),
        toks.len() <= p + 1 || level_of(toks[p + 1].kind) == 0,
        toks[p].kind is Num,
    ensures
        spec_equality(toks, p) == Ok::<(ExprV, int), PErrV>((ExprV::Literal(toks[p]), p + 1)),
{
    lemma_cmp_atom(toks, p);
    if p + 1 < toks.len() {
        lemma_level_membership(toks[p + 1].kind);
    }
    assert(spec_matches(toks, p + 1, equality_ops()) is None);
    assert(spec_eq_tail(toks, ExprV::Literal(toks[p]), p + 1) == Ok::<(ExprV, int), PErrV>((
        ExprV::Literal(toks[p]),
        p + 1,
    )));
}

/// A result already parsed at some level is the result of the whole
/// expression when nothing that could continue it follows.
proof fn lemma_wrap_to_expression(toks: Seq<TokView>, e: ExprV, p: int, level: int)
    requires
        1 <= level <= 4,
        0 <= p <= toks.len(),
        toks.len() <= p || level_of(toks[p].kind) == 0,
        level == 1 ==> spec_equality(toks, 0) == Ok::<(ExprV, int), PErrV>((e, p)),
        level == 2 ==> spec_comparision(toks, 0) == Ok::<(ExprV, int), PErrV>((e, p)),
        level == 3 ==> spec_term(toks, 0) == Ok::<(ExprV, int), PErrV>((e, p)),
        level == 4 ==> spec_factor(toks, 0) == Ok::<(ExprV, int), PErrV>((e, p)),
    ensures
        spec_expression(toks, 0) == Ok::<(ExprV, int), PErrV>((e, p)),
{
    if p < toks.len() {
        lemma_level_membership(toks[p].kind);
    }
    if level == 4 {
        assert(spec_matches(toks, p, term_ops()) is None);
        assert(spec_term_tail(toks, e, p) == Ok::<(ExprV, int), PErrV>((e, p)));
        assert(spec_term(toks, 0) == Ok::<(ExprV, int), PErrV>((e, p)));
    }
    if level >= 3 {
        assert(spec_matches(toks, p, comparison_ops()) is None);
        assert(spec_cmp_tail(toks, e, p) == Ok::<(ExprV, int), PErrV>((e, p)));
        assert(spec_comparision(toks, 0) == Ok::<(ExprV, int), PErrV>((e, p)));
    }
    if level >= 2 {
        assert(spec_matches(toks, p, equality_ops()) is None);
        assert(spec_eq_tail(toks, e, p) == Ok::<(ExprV, int), PErrV>((e, p)));
        assert(spec_equality(toks, 0) == Ok::<(ExprV, int), PErrV>((e, p)));
    }
}

/// A `num op num` pair starting at position 2 of a six-token stream
/// ending in `EOF` parses to a single binary node at the operator's own
/// level and at every looser level.
proof fn lemma_pair_tower(toks: Seq<TokView>)
    requires
        toks.len() == 6,
        toks[2].kind is Num,
        toks[4].kind is Num,
        1 <= level_of(toks[3].kind),
        toks[5].kind is Eof,
    ensures
        ({
            let bin = ExprV::Binary(
                Box::new(ExprV::Literal(toks[2])),
                toks[3],
                Box::new(ExprV::Literal(toks[4])),
            );
            &&& level_of(toks[3].kind) == 4 ==> spec_factor(toks, 2) == Ok::<
                (ExprV, int),
                PErrV,
            >((bin, 5))
            &&& level_of(toks[3].kind) >= 3 ==> spec_term(toks, 2) == Ok::<(ExprV, int), PErrV>(
                (bin, 5),
            )
            &&& level_of(toks[3].kind) >= 2 ==> spec_comparision(toks, 2) == Ok::<
                (ExprV, int),
                PErrV,
            >((bin, 5))
            &&& spec_equality(toks, 2) == Ok::<(ExprV, int), PErrV>((bin, 5))
        }),
{
    let op = toks[3];
    let lv = level_of(op.kind);
    let lit2 = ExprV::Literal(toks[2]);
    let lit3 = ExprV::Literal(toks[4]);
    let bin = ExprV::Binary(Box::new(lit2), op, Box::new(lit3));
    lemma_level_membership(op.kind);
    lemma_level_membership(toks[5].kind);
    if lv == 4 {
        lemma_unary_num(toks, 2);
        lemma_unary_num(toks, 4);
        assert(spec_matches(toks, 3, factor_ops()) == Some((op, 4int)));
        assert(spec_matches(toks, 5, factor_ops()) is None);
        assert(spec_fac_tail(toks, bin, 5) == Ok::<(ExprV, int), PErrV>((bin, 5)));
        assert(spec_fac_tail(toks, lit2, 3) == Ok::<(ExprV, int), PErrV>((bin, 5)));
        assert(spec_factor(toks, 2) == Ok::<(ExprV, int), PErrV>((bin, 5)));
        assert(spec_matches(toks, 5, term_ops()) is None);
        assert(spec_term_tail(toks, bin, 5) == Ok::<(ExprV, int), PErrV>((bin, 5)));
        assert(spec_term(toks, 2) == Ok::<(ExprV, int), PErrV>((bin, 5)));
    }
    if lv == 3 {
        lemma_factor_atom(toks, 2);
        lemma_factor_atom(toks, 4);
        assert(spec_matches(toks, 3, term_ops()) == Some((op, 4int)));
        assert(spec_matches(toks, 5, term_ops()) is None);
        assert(spec_term_tail(toks, bin, 5) == Ok::<(ExprV, int), PErrV>((bin, 5)));
        assert(spec_term_tail(toks, lit2, 3) == Ok::<(ExprV, int), PErrV>((bin, 5)));
        assert(spec_term(toks, 2) == Ok::<(ExprV, int), PErrV>((bin, 5)));
    }
    if lv >= 3 {
        assert(spec_matches(toks, 5, comparison_ops()) is None);
        assert(spec_cmp_tail(toks, bin, 5) == Ok::<(ExprV, int), PErrV>((bin, 5)));
        assert(spec_comparision(toks, 2) == Ok::<(ExprV, int), PErrV>((bin, 5)));
    }
    if lv == 2 {
        lemma_term_atom(toks, 2);
        lemma_term_atom(toks, 4);
        assert(spec_matches(toks, 3, comparison_ops()) == Some((op, 4int)));
        assert(spec_matches(toks, 5, comparison_ops()) is None);
        assert(spec_cmp_tail(toks, bin, 5) == Ok::<(ExprV, int), PErrV>((bin, 5)));
        assert(spec_cmp_tail(toks, lit2, 3) == Ok::<(ExprV, int), PErrV>((bin, 5)));
        assert(spec_comparision(toks, 2) == Ok::<(ExprV, int), PErrV>((bin, 5)));
    }
    if lv >= 2 {
        assert(spec_matches(toks, 5, equality_ops()) is None);
        assert(spec_eq_tail(toks, bin, 5) == Ok::<(ExprV, int), PErrV>((bin, 5)));
        assert(spec_equality(toks, 2) == Ok::<(ExprV, int), PErrV>((bin, 5)));
    }
    if lv == 1 {
        lemma_cmp_atom(toks, 2);
        lemma_cmp_atom(toks, 4);
        assert(spec_matches(toks, 3, equality_ops()) == Some((op, 4int)));
        assert(spec_matches(toks, 5, equality_ops()) is None);
        assert(spec_eq_tail(toks, bin, 5) == Ok::<(ExprV, int), PErrV>((bin, 5)));
        assert(spec_eq_tail(toks, lit2, 3) == Ok::<(ExprV, int), PErrV>((bin, 5)));
        assert(spec_equality(toks, 2) == Ok::<(ExprV, int), PErrV>((bin, 5)));
    }
}

/// Two binary operators of the same precedence level fold to the left:
/// `n1 o1 n2 o2 n3` parses as `(o2 (o1 n1 n2) n3)`.
pub proof fn law_left_associative(
    n1: TokView,
    o1: TokView,
    n2: TokView,
    o2: TokView,
    n3: TokView,
    eof: TokView,
)
    requires
        n1.kind is Num,
        n2.kind is Num,
        n3.kind is Num,
        eof.kind is Eof,
        1 <= level_of(o1.kind),
        level_of(o1.kind) == level_of(o2.kind),
    ensures
        ({
            let toks = seq![n1, o1, n2, o2, n3, eof];
            let left = ExprV::Binary(
                Box::new(ExprV::Literal(n1)),
                o1,
                Box::new(ExprV::Literal(n2)),
            );
            let whole = ExprV::Binary(Box::new(left), o2, Box::new(ExprV::Literal(n3)));
            spec_expression(toks, 0) == Ok::<(ExprV, int), PErrV>((whole, 5))
        }),
{
    let toks = seq![n1, o1, n2, o2, n3, eof];
    let lv = level_of(o1.kind);
    let lit1 = ExprV::Literal(n1);
    let lit2 = ExprV::Literal(n2);
    let lit3 = ExprV::Literal(n3);
    let left = ExprV::Binary(Box::new(lit1), o1, Box::new(lit2));
    let whole = ExprV::Binary(Box::new(left), o2, Box::new(lit3));
    lemma_level_membership(o1.kind);
    lemma_level_membership(o2.kind);
    lemma_level_membership(eof.kind);
    if lv == 1 {
        lemma_cmp_atom(toks, 0);
        lemma_cmp_atom(toks, 2);
        lemma_cmp_atom(toks, 4);
        assert(spec_matches(toks, 1, equality_ops()) == Some((o1, 2int)));
        assert(spec_matches(toks, 3, equality_ops()) == Some((o2, 4int)));
        assert(spec_matches(toks, 5, equality_ops()) is None);
        assert(spec_eq_tail(toks, whole, 5) == Ok::<(ExprV, int), PErrV>((whole, 5)));
        assert(spec_eq_tail(toks, left, 3) == Ok::<(ExprV, int), PErrV>((whole, 5)));
        assert(spec_eq_tail(toks, lit1, 1) == Ok::<(ExprV, int), PErrV>((whole, 5)));
        assert(spec_equality(toks, 0) == Ok::<(ExprV, int), PErrV>((whole, 5)));
    }
    if lv == 2 {
        lemma_term_atom(toks, 0);
        lemma_term_atom(toks, 2);
        lemma_term_atom(toks, 4);
        assert(spec_matches(toks, 1, comparison_ops()) == Some((o1, 2int)));
        assert(spec_matches(toks, 3, comparison_ops()) == Some((o2, 4int)));
        assert(spec_matches(toks, 5, comparison_ops()) is None);
        assert(spec_cmp_tail(toks, whole, 5) == Ok::<(ExprV, int), PErrV>((whole, 5)));
        assert(spec_cmp_tail(toks, left, 3) == Ok::<(ExprV, int), PErrV>((whole, 5)));
        assert(spec_cmp_tail(toks, lit1, 1) == Ok::<(ExprV, int), PErrV>((whole, 5)));
        assert(spec_comparision(toks, 0) == Ok::<(ExprV, int), PErrV>((whole, 5)));
        lemma_wrap_to_expression(toks, whole, 5, 2);
    }
    if lv == 3 {
        lemma_factor_atom(toks, 0);
        lemma_factor_atom(toks, 2);
        lemma_factor_atom(toks, 4);
        assert(spec_matches(toks, 1, term_ops()) == Some((o1, 2int)));
        assert(spec_matches(toks, 3, term_ops()) == Some((o2, 4int)));
        assert(spec_matches(toks, 5, term_ops()) is None);
        assert(spec_term_tail(toks, whole, 5) == Ok::<(ExprV, int), PErrV>((whole, 5)));
        assert(spec_term_tail(toks, left, 3) == Ok::<(ExprV, int), PErrV>((whole, 5)));
        assert(spec_term_tail(toks, lit1, 1) == Ok::<(ExprV, int), PErrV>((whole, 5)));
        assert(spec_term(toks, 0) == Ok::<(ExprV, int), PErrV>((whole, 5)));
        lemma_wrap_to_expression(toks, whole, 5, 3);
    }
    if lv == 4 {
        lemma_unary_num(toks, 0);
        lemma_unary_num(toks, 2);
        lemma_unary_num(toks, 4);
        assert(spec_matches(toks, 1, factor_ops()) == Some((o1, 2int)));
        assert(spec_matches(toks, 3, factor_ops()) == Some((o2, 4int)));
        assert(spec_matches(toks, 5, factor_ops()) is None);
        assert(spec_fac_tail(toks, whole, 5) == Ok::<(ExprV, int), PErrV>((whole, 5)));
        assert(spec_fac_tail(toks, left, 3) == Ok::<(ExprV, int), PErrV>((whole, 5)));
        assert(spec_fac_tail(toks, lit1, 1) == Ok::<(ExprV, int), PErrV>((whole, 5)));
        assert(spec_factor(toks, 0) == Ok::<(ExprV, int), PErrV>((whole, 5)));
        lemma_wrap_to_expression(toks, whole, 5, 4);
    }
}

/// Unary operators are right-associative: `! - n` parses as
/// `(! (- n))`.
pub proof fn law_unary_right_associative(bang: TokView, minus: TokView, n: TokView, eof: TokView)
    requires
        bang.kind is Bang,
        minus.kind is Minus,
        n.kind is Num,
        eof.kind is Eof,
    ensures
        ({
            let toks = seq![bang, minus, n, eof];
            let whole = ExprV::Unary(
                bang,
                Box::new(ExprV::Unary(minus, Box::new(ExprV::Literal(n)))),
            );
            spec_expression(toks, 0) == Ok::<(ExprV, int), PErrV>((whole, 3))
        }),
{
    let toks = seq![bang, minus, n, eof];
    let inner = ExprV::Unary(minus, Box::new(ExprV::Literal(n)));
    let whole = ExprV::Unary(bang, Box::new(inner));
    lemma_level_membership(bang.kind);
    lemma_level_membership(minus.kind);
    lemma_level_membership(n.kind);
    lemma_level_membership(eof.kind);
    lemma_unary_num(toks, 2);
    assert(spec_matches(toks, 0, unary_ops()) == Some((bang, 1int)));
    assert(spec_matches(toks, 1, unary_ops()) == Some((minus, 2int)));
    assert(spec_unary(toks, 1) == Ok::<(ExprV, int), PErrV>((inner, 3)));
    assert(spec_unary(toks, 0) == Ok::<(ExprV, int), PErrV>((whole, 3)));
    assert(spec_matches(toks, 3, factor_ops()) is None);
    assert(spec_fac_tail(toks, whole, 3) == Ok::<(ExprV, int), PErrV>((whole, 3)));
    assert(spec_factor(toks, 0) == Ok::<(ExprV, int), PErrV>((whole, 3)));
    lemma_wrap_to_expression(toks, whole, 3, 4);
}

/// Mixing two binary operators of different precedence binds the
/// tighter one first: with `a` looser than `b`, `n1 a n2 b n3` parses
/// as `(a n1 (b n2 n3))`.
pub proof fn law_precedence(
    n1: TokView,
    a: TokView,
    n2: TokView,
    b: TokView,
    n3: TokView,
    eof: TokView,
)
    requires
        n1.kind is Num,
        n2.kind is Num,
        n3.kind is Num,
        eof.kind is Eof,
        1 <= level_of(a.kind) < level_of(b.kind),
    ensures
        ({
            let toks = seq![n1, a, n2, b, n3, eof];
            let inner = ExprV::Binary(
                Box::new(ExprV::Literal(n2)),
                b,
                Box::new(ExprV::Literal(n3)),
            );
            let whole = ExprV::Binary(Box::new(ExprV::Literal(n1)), a, Box::new(inner));
            spec_expression(toks, 0) == Ok::<(ExprV, int), PErrV>((whole, 5))
        }),
{
    let toks = seq![n1, a, n2, b, n3, eof];
    let la = level_of(a.kind);
    let lit1 = ExprV::Literal(n1);
    let inner = ExprV::Binary(Box::new(ExprV::Literal(n2)), b, Box::new(ExprV::Literal(n3)));
    let whole = ExprV::Binary(Box::new(lit1), a, Box::new(inner));
    lemma_level_membership(a.kind);
    lemma_level_membership(b.kind);
    lemma_level_membership(eof.kind);
    lemma_pair_tower(toks);
    if la == 1 {
        lemma_cmp_atom(toks, 0);
        assert(spec_matches(toks, 1, equality_ops()) == Some((a, 2int)));
        assert(spec_matches(toks, 5, equality_ops()) is None);
        assert(spec_eq_tail(toks, whole, 5) == Ok::<(ExprV, int), PErrV>((whole, 5)));
        assert(spec_eq_tail(toks, lit1, 1) == Ok::<(ExprV, int), PErrV>((whole, 5)));
        assert(spec_equality(toks, 0) == Ok::<(ExprV, int), PErrV>((whole, 5)));
    }
    if la == 2 {
        lemma_term_atom(toks, 0);
        assert(spec_matches(toks, 1, comparison_ops()) == Some((a, 2int)));
        assert(spec_matches(toks, 5, comparison_ops()) is None);
        assert(spec_cmp_tail(toks, whole, 5) == Ok::<(ExprV, int), PErrV>((whole, 5)));
        assert(spec_cmp_tail(toks, lit1, 1) == Ok::<(ExprV, int), PErrV>((whole, 5)));
        assert(spec_comparision(toks, 0) == Ok::<(ExprV, int), PErrV>((whole, 5)));
        lemma_wrap_to_expression(toks, whole, 5, 2);
    }
    if la == 3 {
        lemma_factor_atom(toks, 0);
        assert(spec_matches(toks, 1, term_ops()) == Some((a, 2int)));
        assert(spec_matches(toks, 5, term_ops()) is None);
        assert(spec_term_tail(toks, whole, 5) == Ok::<(ExprV, int), PErrV>((whole, 5)));
        assert(spec_term_tail(toks, lit1, 1) == Ok::<(ExprV, int), PErrV>((whole, 5)));
        assert(spec_term(toks, 0) == Ok::<(ExprV, int), PErrV>((whole, 5)));
        lemma_wrap_to_expression(toks, whole, 5, 3);
    }
}

/// Every scan ends with exactly one `EOF` token: the last token is
/// `EOF` and no earlier one is.
pub proof fn lemma_single_eof(s: Seq<char>, pos: int)
    requires
        0 <= pos <= s.len(),
    ensures
        spec_tokens(s, pos).len() >= 1,
        spec_tokens(s, pos).last().kind is Eof,
        forall|i: int|
            0 <= i < spec_tokens(s, pos).len() - 1 ==> !(#[trigger] spec_tokens(s, pos)[i].kind
                is Eof),
    decreases s.len() - pos,
{
    lemma_token_advances(s, pos);
    let (t, end) = spec_token_at(s, pos);
    if !(t.kind is Eof) {
        lemma_single_eof(s, end);
        let rest = spec_tokens(s, end);
        assert(spec_tokens(s, pos) =~= seq![t] + rest);
        assert(spec_tokens(s, pos).last() == rest.last());
        assert(forall|i: int|
            1 <= i < spec_tokens(s, pos).len() - 1 ==> !(#[trigger] spec_tokens(s, pos)[i].kind
                is Eof));
    }
}


/// Every digit of a decimal rendering is a digit character, and there
/// is at least one.
proof fn lemma_dec_digits_are_digits(n: nat)
    ensures
        dec_digits(n).len() >= 1,
        forall|i: int| 0 <= i < dec_digits(n).len() ==> is_digit_char(#[trigger] dec_digits(n)[i]),
    decreases n,
{
    if n < 10 {
        assert(is_digit_char(digit_char(n as int)));
    } else {
        lemma_dec_digits_are_digits(n / 10);
        assert(is_digit_char(digit_char((n % 10) as int)));
        assert(forall|i: int|
            0 <= i < dec_digits(n).len() ==> is_digit_char(#[trigger] dec_digits(n)[i]));
    }
}

/// Reading the decimal rendering of a number back as digits gives the
/// number: rendering and digit parsing are inverse.
proof fn lemma_digits_val_inverse(n: nat)
    ensures
        digits_val(dec_digits(n)) == n,
    decreases n,
{
    if n < 10 {
        let c = digit_char(n as int);
        assert(dec_digits(n) == seq![c]);
        assert(seq![c].drop_last() =~= Seq::<char>::empty());
        assert(seq![c].last() == c);
        assert(c as int - '0' as int == n);
        assert(digits_val(seq![c]) == digits_val(Seq::<char>::empty()) * 10 + (c as int
            - '0' as int));
    } else {
        lemma_digits_val_inverse(n / 10);
        let c = digit_char((n % 10) as int);
        assert(dec_digits(n) == dec_digits(n / 10) + seq![c]);
        assert((dec_digits(n / 10) + seq![c]).drop_last() =~= dec_digits(n / 10));
        assert((dec_digits(n / 10) + seq![c]).last() == c);
        assert(c as int - '0' as int == n % 10);
        assert(digits_val(dec_digits(n / 10) + seq![c]) == digits_val(dec_digits(n / 10)) * 10 + (
        c as int - '0' as int));
    }
}

/// A run of digits reaching the end of the text ends the digit scan at
/// the end.
proof fn lemma_digit_end_all(s: Seq<char>, i: int)
    requires
        0 <= i <= s.len(),
        forall|m: int| i <= m < s.len() ==> is_digit_char(#[trigger] s[m]),
    ensures
        digit_end(s, i) == s.len(),
    decreases s.len() - i,
{
    if i < s.len() {
        lemma_digit_end_all(s, i + 1);
    }
}

/// A run of digits up to a non-digit ends the digit scan exactly
/// there.
proof fn lemma_digit_end_until(s: Seq<char>, i: int, m: int)
    requires
        0 <= i <= m < s.len(),
        forall|x: int| i <= x < m ==> is_digit_char(#[trigger] s[x]),
        !is_digit_char(s[m]),
    ensures
        digit_end(s, i) == m,
    decreases m - i,
{
    if i < m {
        lemma_digit_end_until(s, i + 1, m);
    }
}

/// `10^j`.
pub open spec fn ten_pow(j: nat) -> int
    decreases j,
{
    if j == 0 {
        1
    } else {
        10 * ten_pow((j - 1) as nat)
    }
}

/// Powers of ten are positive.
proof fn lemma_ten_pow_pos(j: nat)
    ensures
        ten_pow(j) >= 1,
    decreases j,
{
    if j > 0 {
        lemma_ten_pow_pos((j - 1) as nat);
    }
}

/// Powers of ten grow with the exponent.
proof fn lemma_ten_pow_monotone(i: nat, j: nat)
    requires
        i <= j,
    ensures
        ten_pow(i) <= ten_pow(j),
    decreases j,
{
    if i < j {
        lemma_ten_pow_monotone(i, (j - 1) as nat);
        lemma_ten_pow_pos((j - 1) as nat);
    }
}

/// The largest power of ten a scanned fraction can contribute.
proof fn lemma_ten_pow_19()
    ensures
        ten_pow(19) == 10_000_000_000_000_000_000,
{
    reveal_with_fuel(ten_pow, 21);
}

/// Up to nineteen digits, the scanner's capped power of ten is the
/// exact power.
proof fn lemma_pow10_cap_exact(j: nat)
    requires
        j <= 19,
    ensures
        pow10_cap(j) == ten_pow(j),
        ten_pow(j) <= 10_000_000_000_000_000_000,
    decreases j,
{
    lemma_ten_pow_monotone(j, 19);
    lemma_ten_pow_19();
    if j > 0 {
        lemma_pow10_cap_exact((j - 1) as nat);
    }
}

/// Prepending a digit multiplies the tail's value into the next power
/// of ten.
proof fn lemma_digits_val_prepend(c: char, t: Seq<char>)
    ensures
        digits_val(seq![c] + t) == (c as int - '0' as int) * ten_pow(t.len()) + digits_val(t),
    decreases t.len(),
{
    let cd = c as int - '0' as int;
    if t.len() == 0 {
        assert(seq![c] + t =~= seq![c]);
        assert(seq![c].drop_last() =~= Seq::<char>::empty());
        assert(seq![c].last() == c);
        assert(digits_val(t) == 0);
        assert(digits_val(seq![c]) == digits_val(Seq::<char>::empty()) * 10 + cd);
        assert(cd * 1 == cd) by (nonlinear_arith);
    } else {
        lemma_digits_val_prepend(c, t.drop_last());
        assert((seq![c] + t).drop_last() =~= seq![c] + t.drop_last());
        assert((seq![c] + t).last() == t.last());
        let p = ten_pow((t.len() - 1) as nat);
        assert((cd * p + digits_val(t.drop_last())) * 10 == cd * (10 * p) + digits_val(
            t.drop_last(),
        ) * 10) by (nonlinear_arith);
        assert(ten_pow(t.len()) == 10 * p);
    }
}

/// What decimal long division produces: digit characters whose value,
/// scaled back by the denominator, sits within one denominator of the
/// dividend, exactly so whenever the division stopped on its own.
proof fn lemma_frac_expansion(r: int, den: int, fuel: nat)
    requires
        0 <= r < den,
        1 <= den <= max_den(),
    ensures
        ({
            let ds = frac_digit_seq(r, den, fuel);
            &&& ds.len() <= fuel
            &&& (r > 0 && fuel > 0 ==> ds.len() >= 1)
            &&& forall|i: int| 0 <= i < ds.len() ==> is_digit_char(#[trigger] ds[i])
            &&& 0 <= digits_val(ds) < ten_pow(ds.len())
            &&& digits_val(ds) * den <= r * ten_pow(ds.len())
            &&& r * ten_pow(ds.len()) - digits_val(ds) * den < den
            &&& (ds.len() < fuel ==> r * ten_pow(ds.len()) == digits_val(ds) * den)
        }),
    decreases fuel,
{
    let ds = frac_digit_seq(r, den, fuel);
    if fuel == 0 || r <= 0 {
        assert(ds =~= Seq::<char>::empty());
    } else {
        let d = r * 10 / den;
        let r2 = r * 10 % den;
        crate::numeric::lemma_frac_step(r, den);
        vstd::arithmetic::div_mod::lemma_fundamental_div_mod(r * 10, den);
        let c = digit_char(d);
        let t = frac_digit_seq(r2, den, (fuel - 1) as nat);
        assert(ds == seq![c] + t);
        lemma_frac_expansion(r2, den, (fuel - 1) as nat);
        lemma_digits_val_prepend(c, t);
        assert(is_digit_char(c));
        assert(c as int - '0' as int == d);
        let tp = ten_pow(t.len());
        lemma_ten_pow_pos(t.len());
        assert(ds.len() == t.len() + 1);
        assert(ten_pow(ds.len()) == 10 * tp);
        let dvt = digits_val(t);
        assert(digits_val(ds) == d * tp + dvt);
        assert(r * (10 * tp) == d * tp * den + r2 * tp) by (nonlinear_arith)
            requires
                r * 10 == d * den + r2,
        ;
        assert((d * tp + dvt) * den == d * tp * den + dvt * den) by (nonlinear_arith);
        assert(0 <= d * tp + dvt < 10 * tp) by (nonlinear_arith)
            requires
                0 <= d <= 9 && 0 <= dvt < tp && tp >= 1,
        ;
        assert(dvt * den <= r2 * tp ==> d * tp * den + dvt * den <= d * tp * den + r2 * tp);
        assert(forall|i: int| 0 <= i < ds.len() ==> is_digit_char(#[trigger] ds[i]));
    }
}

/// If the dividend times `10^k` is a multiple of the denominator, long
/// division stops within `k` digits.
proof fn lemma_frac_len(r: int, den: int, fuel: nat, k: nat)
    requires
        0 <= r < den,
        1 <= den <= max_den(),
        k <= fuel,
        (r * ten_pow(k)) % den == 0,
    ensures
        frac_digit_seq(r, den, fuel).len() <= k,
    decreases k,
{
    if r == 0 || fuel == 0 {
    } else if k == 0 {
        vstd::arithmetic::div_mod::lemma_small_mod(r as nat, den as nat);
        assert(r * 1 == r) by (nonlinear_arith);
        assert(false);
    } else {
        let r2 = r * 10 % den;
        vstd::arithmetic::div_mod::lemma_mul_mod_noop_left(r * 10, ten_pow((k - 1) as nat), den);
        assert(r * 10 * ten_pow((k - 1) as nat) == r * ten_pow(k)) by (nonlinear_arith)
            requires
                ten_pow(k) == 10 * ten_pow((k - 1) as nat),
        ;
        crate::numeric::lemma_frac_step(r, den);
        lemma_frac_len(r2, den, (fuel - 1) as nat, (k - 1) as nat);
    }
}

/// A text that scans to a single number token followed by `EOF` parses
/// to a literal of that number.
proof fn lemma_single_number_token_parses(s: Seq<char>, v2: RatV)
    requires
        s.len() >= 1,
        skip_trivia(s, 0) == 0,
        scan_kind(s, 0) == (TokKind::Num(v2), s.len() as int),
    ensures
        ({
            let toks = spec_tokens(s, 0);
            &&& toks.len() == 2
            &&& toks[0].kind == TokKind::Num(v2)
            &&& toks[0].lexeme == s
            &&& toks[1].kind is Eof
            &&& spec_expression(toks, 0) == Ok::<(ExprV, int), PErrV>((
                ExprV::Literal(toks[0]),
                1,
            ))
        }),
{
    assert(skip_trivia(s, s.len() as int) == s.len() as int);
    assert(scan_kind(s, s.len() as int) == (TokKind::Eof, s.len() as int));
    let t1 = spec_token_at(s, 0).0;
    let t2 = spec_token_at(s, s.len() as int).0;
    assert(t1.lexeme =~= s);
    assert(spec_tokens(s, s.len() as int) =~= seq![t2]);
    assert(spec_tokens(s, 0) =~= seq![t1, t2]);
    let toks = spec_tokens(s, 0);
    lemma_level_membership(toks[1].kind);
    lemma_eq_atom(toks, 0);
    assert(spec_expression(toks, 0) == Ok::<(ExprV, int), PErrV>((ExprV::Literal(toks[0]), 1)));
}

/// The round trip for number literals as the scanner produces them
/// (any value with a power-of-ten denominator): printing such a
/// literal, scanning the printed text, and parsing the tokens yields a
/// number literal of the same value.  Larger trees cannot round-trip:
/// the printer emits parenthesized prefix form, which the infix
/// grammar does not accept back.
pub proof fn law_number_literal_round_trip(m: u64, k: nat, t: TokView)
    requires
        k <= 19,
        t.kind == TokKind::Num(RatV { num: m as int, den: ten_pow(k) }),
    ensures
        ({
            let toks = spec_tokens(spec_print(ExprV::Literal(t)), 0);
            &&& toks.len() == 2
            &&& toks[1].kind is Eof
            &&& toks[0].kind matches TokKind::Num(v2) && rat_eq(
                v2,
                RatV { num: m as int, den: ten_pow(k) },
            )
            &&& spec_expression(toks, 0) == Ok::<(ExprV, int), PErrV>((
                ExprV::Literal(toks[0]),
                1,
            ))
        }),
{
    let den = ten_pow(k);
    lemma_ten_pow_pos(k);
    lemma_pow10_cap_exact(k);
    let v = RatV { num: m as int, den };
    let s = spec_print(ExprV::Literal(t));
    vstd::arithmetic::div_mod::lemma_fundamental_div_mod(m as int, den);
    let q = m as int / den;
    let r = m as int % den;
    assert(0 <= r < den && 0 <= q <= m as int) by (nonlinear_arith)
        requires
            den >= 1 && m as int >= 0 && m as int == den * q + r && r == m as int % den,
    ;
    lemma_dec_digits_are_digits(q as nat);
    lemma_digits_val_inverse(q as nat);
    let qa = dec_digits(q as nat);
    if r == 0 {
        assert(s == qa);
        assert(is_digit_char(s[0]));
        assert(!is_ws(s[0]));
        assert(skip_trivia(s, 0) == 0);
        lemma_digit_end_all(s, 0);
        assert(s.subrange(0, s.len() as int) =~= s);
        assert(pow10_cap(0) == 1);
        assert(digits_val(Seq::<char>::empty()) == 0);
        assert(sat64(digits_val(s)) == q);
        let v2 = RatV { num: q, den: 1int };
        assert(num_lit_val(s, Seq::empty()) == v2) by {
            assert(sat64(digits_val(s)) * pow10_cap(0) == q) by (nonlinear_arith)
                requires
                    sat64(digits_val(s)) == q && pow10_cap(0) == 1,
            ;
        }
        assert(scan_kind(s, 0) == (TokKind::Num(v2), s.len() as int));
        lemma_single_number_token_parses(s, v2);
        assert(rat_eq(v2, v)) by {
            assert(q * den == m as int * 1) by (nonlinear_arith)
                requires
                    m as int == den * q,
            ;
        }
    } else {
        let ds = frac_digit_seq(r, den, frac_cap());
        assert(s == qa + seq!['.'] + ds);
        assert(frac_cap() == 64);
        lemma_frac_expansion(r, den, 64);
        vstd::arithmetic::div_mod::lemma_mod_multiples_basic(r, den);
        lemma_frac_len(r, den, 64, k);
        let len = ds.len();
        assert(len <= k < 64);
        assert(r * ten_pow(len) == digits_val(ds) * den);
        lemma_pow10_cap_exact(len);
        let d1 = qa.len() as int;
        assert(s[0] == qa[0]);
        assert(is_digit_char(s[0]));
        assert(!is_ws(s[0]));
        assert(skip_trivia(s, 0) == 0);
        assert(s[d1] == '.');
        assert(!is_digit_char('.'));
        assert(forall|x: int| 0 <= x < d1 ==> s[x] == qa[x]);
        assert(forall|x: int| 0 <= x < d1 ==> is_digit_char(#[trigger] s[x]));
        lemma_digit_end_until(s, 0, d1);
        assert(len >= 1);
        assert(d1 + 1 < s.len());
        assert(forall|x: int| d1 + 1 <= x < s.len() ==> s[x] == ds[x - d1 - 1]);
        assert(forall|x: int| d1 + 1 <= x < s.len() ==> is_digit_char(#[trigger] s[x]));
        assert(is_digit_char(s[d1 + 1]));
        lemma_digit_end_all(s, d1 + 1);
        assert(s.subrange(0, d1) =~= qa);
        assert(s.subrange(d1 + 1, s.len() as int) =~= ds);
        let dval = digits_val(ds);
        lemma_ten_pow_monotone(len, 19);
        lemma_ten_pow_19();
        assert(sat64(q) == q);
        assert(sat64(dval) == dval);
        let raw = q * ten_pow(len) + dval;
        assert(raw * den == m as int * ten_pow(len)) by (nonlinear_arith)
            requires
                raw == q * ten_pow(len) + dval && r * ten_pow(len) == dval * den && m as int
                    == den * q + r,
        ;
        lemma_ten_pow_monotone(len, k);
        assert(0 <= raw <= m as int) by (nonlinear_arith)
            requires
                raw * den == m as int * ten_pow(len) && 1 <= ten_pow(len) <= den && m as int >= 0
                    && q >= 0 && dval >= 0 && raw == q * ten_pow(len) + dval,
        ;
        assert(sat64(raw) == raw);
        let v2 = RatV { num: raw, den: ten_pow(len) };
        assert(num_lit_val(qa, ds) == v2);
        assert(scan_kind(s, 0) == (TokKind::Num(v2), s.len() as int));
        lemma_single_number_token_parses(s, v2);
        assert(rat_eq(v2, v));
    }
}

} // verus!
