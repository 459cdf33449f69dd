//! The scanner: source text in, tokens out.
//!
//! The specification side is a small functional scanner over the source
//! character sequence: [`skip_trivia`] passes over whitespace and line
//! comments, [`scan_kind`] classifies the token starting at a
//! trivia-free position and says where it ends, and [`spec_tokens`] is
//! the resulting token stream.  The executable [`Lexer`] is proved to
//! produce exactly that stream, with every lexeme the exact source
//! substring it came from and every position captured at the token's
//! first character.

use vstd::prelude::*;

use crate::lexer::token::TokView;
use crate::lexer::token::Token;
use crate::lexer::types::keyword_kind;
use crate::lexer::types::TokKind;
use crate::lexer::types::TokenType;
use crate::numeric::max_den;
use crate::numeric::Rat;
use crate::numeric::RatV;

verus! {

/// Whitespace skipped between tokens.
pub open spec fn is_ws(c: char) -> bool {
    c == ' ' || c == '\t' || c == '\r' || c == '\n'
}

/// A decimal digit.
pub open spec fn is_digit_char(c: char) -> bool {
    '0' <= c && c <= '9'
}

/// A character that can start an identifier.
pub open spec fn is_ident_start(c: char) -> bool {
    ('a' <= c && c <= 'z') || ('A' <= c && c <= 'Z') || c == '_'
}

/// A character that can continue an identifier.
pub open spec fn is_ident_char(c: char) -> bool {
    is_digit_char(c) || is_ident_start(c)
}

/// A counter bump that sticks at the top of the `usize` range.
pub open spec fn sat_inc(n: int) -> int {
    if n >= usize::MAX as int {
        n
    } else {
        n + 1
    }
}

/// The 1-based line number of position `pos`: one more than the number
/// of newlines before it.
pub open spec fn line_at(s: Seq<char>, pos: int) -> int
    decreases pos,
{
    if pos <= 0 {
        1
    } else if s[pos - 1] == '\n' {
        sat_inc(line_at(s, pos - 1))
    } else {
        line_at(s, pos - 1)
    }
}

/// The 1-based column of position `pos`, resetting after each newline.
pub open spec fn col_at(s: Seq<char>, pos: int) -> int
    decreases pos,
{
    if pos <= 0 {
        1
    } else if s[pos - 1] == '\n' {
        1
    } else {
        sat_inc(col_at(s, pos - 1))
    }
}

/// The first position at or after `i` that holds a newline, or the end.
pub open spec fn comment_end(s: Seq<char>, i: int) -> int
    decreases s.len() - i,
{
    if 0 <= i < s.len() && s[i] != '\n' {
        comment_end(s, i + 1)
    } else {
        i
    }
}

/// The position of the next token start at or after `pos`: whitespace
/// and `//` line comments are passed over.
pub open spec fn skip_trivia(s: Seq<char>, pos: int) -> int
    decreases s.len() - pos, 1int,
{
    if 0 <= pos < s.len() && is_ws(s[pos]) {
        skip_trivia(s, pos + 1)
    } else if 0 <= pos && pos + 1 < s.len() && s[pos] == '/' && s[pos + 1] == '/' {
        let j = comment_end(s, pos + 2);
        if pos < j <= s.len() {
            skip_trivia(s, j)
        } else {
            pos
        }
    } else {
        pos
    }
}

/// The end of the run of decimal digits starting at `i`.
pub open spec fn digit_end(s: Seq<char>, i: int) -> int
    decreases s.len() - i,
{
    if 0 <= i < s.len() && is_digit_char(s[i]) {
        digit_end(s, i + 1)
    } else {
        i
    }
}

/// The end of the run of identifier characters starting at `i`.
pub open spec fn ident_end(s: Seq<char>, i: int) -> int
    decreases s.len() - i,
{
    if 0 <= i < s.len() && is_ident_char(s[i]) {
        ident_end(s, i + 1)
    } else {
        i
    }
}

/// The first position at or after `i` holding a closing quote or a
/// newline, or the end: where the body of a string literal stops.
pub open spec fn str_body_end(s: Seq<char>, i: int) -> int
    decreases s.len() - i,
{
    if 0 <= i < s.len() && s[i] != '"' && s[i] != '\n' {
        str_body_end(s, i + 1)
    } else {
        i
    }
}

/// The numeric value of a digit string, most significant digit first.
pub open spec fn digits_val(s: Seq<char>) -> int
    decreases s.len(),
{
    if s.len() == 0 {
        0
    } else {
        digits_val(s.drop_last()) * 10 + (s.last() as int - '0' as int)
    }
}

/// Saturation at the top of the `u64` range.
pub open spec fn sat64(x: int) -> int {
    if x > u64::MAX as int {
        u64::MAX as int
    } else {
        x
    }
}

/// `10^k`, saturating at [`max_den`]: the denominator that a fraction
/// of `k` digits contributes.
pub open spec fn pow10_cap(k: nat) -> int
    decreases k,
{
    if k == 0 {
        1
    } else {
        let p = pow10_cap((k - 1) as nat) * 10;
        if p > max_den() {
            max_den()
        } else {
            p
        }
    }
}

/// The value of a number literal with integer digits `ip` and fraction
/// digits `fr`; exact whenever all the stored components are in range,
/// saturating otherwise.
pub open spec fn num_lit_val(ip: Seq<char>, fr: Seq<char>) -> RatV {
    let den = pow10_cap(fr.len());
    RatV { num: sat64(sat64(digits_val(ip)) * den + sat64(digits_val(fr))), den }
}

/// Classifies the token starting at the trivia-free position `i` and
/// gives the position just past it.  At or past the end the token is
/// `Eof` and nothing is consumed.
pub open spec fn scan_kind(s: Seq<char>, i: int) -> (TokKind, int) {
    if i < 0 || i >= s.len() {
        (TokKind::Eof, i)
    } else {
        let c = s[i];
        if c == '(' {
            (TokKind::LeftParen, i + 1)
        } else if c == ')' {
            (TokKind::RightParen, i + 1)
        } else if c == '{' {
            (TokKind::LeftBrace, i + 1)
        } else if c == '}' {
            (TokKind::RightBrace, i + 1)
        } else if c == '*' {
            (TokKind::Star, i + 1)
        } else if c == '.' {
            (TokKind::Dot, i + 1)
        } else if c == ',' {
            (TokKind::Comma, i + 1)
        } else if c == ';' {
            (TokKind::Semicolon, i + 1)
        } else if c == '+' {
            (TokKind::Plus, i + 1)
        } else if c == '-' {
            (TokKind::Minus, i + 1)
        } else if c == '/' {
            (TokKind::Slash, i + 1)
        } else if c == '=' {
            if i + 1 < s.len() && s[i + 1] == '=' {
                (TokKind::EqualEqual, i + 2)
            } else {
                (TokKind::Equal, i + 1)
            }
        } else if c == '!' {
            if i + 1 < s.len() && s[i + 1] == '=' {
                (TokKind::BangEqual, i + 2)
            } else {
                (TokKind::Bang, i + 1)
            }
        } else if c == '>' {
            if i + 1 < s.len() && s[i + 1] == '=' {
                (TokKind::GreaterEqual, i + 2)
            } else {
                (TokKind::Greater, i + 1)
            }
        } else if c == '<' {
            if i + 1 < s.len() && s[i + 1] == '=' {
                (TokKind::LessEqual, i + 2)
            } else {
                (TokKind::Less, i + 1)
            }
        } else if c == '"' {
            let j = str_body_end(s, i + 1);
            if j < s.len() && s[j] == '"' {
                (TokKind::StrLit(s.subrange(i + 1, j)), j + 1)
            } else {
                (TokKind::Unterminated(s.subrange(i + 1, j)), j)
            }
        } else if is_digit_char(c) {
            let d1 = digit_end(s, i);
            if d1 < s.len() && s[d1] == '.' && d1 + 1 < s.len() && is_digit_char(s[d1 + 1]) {
                let d2 = digit_end(s, d1 + 1);
                (TokKind::Num(num_lit_val(s.subrange(i, d1), s.subrange(d1 + 1, d2))), d2)
            } else {
                (TokKind::Num(num_lit_val(s.subrange(i, d1), Seq::empty())), d1)
            }
        } else if is_ident_start(c) {
            let e = ident_end(s, i);
            let text = s.subrange(i, e);
            (
                match keyword_kind(text) {
                    Some(k) => k,
                    None => TokKind::Ident(text),
                },
                e,
            )
        } else {
            (TokKind::Unknown, i + 1)
        }
    }
}

/// The token starting at or after `pos` (trivia skipped first), and the
/// position just past it.  The lexeme is the exact source substring of
/// the token, and the position is taken at its first character.
pub open spec fn spec_token_at(s: Seq<char>, pos: int) -> (TokView, int) {
    let j = skip_trivia(s, pos);
    let (kind, end) = scan_kind(s, j);
    (
        TokView {
            kind,
            lexeme: s.subrange(j, end),
            line: line_at(s, j),
            character: col_at(s, j),
        },
        end,
    )
}

/// The full token stream from `pos` on: one token after another, ending
/// with the single `Eof` token.
pub open spec fn spec_tokens(s: Seq<char>, pos: int) -> Seq<TokView>
    decreases s.len() - pos,
{
    let (t, end) = spec_token_at(s, pos);
    if t.kind is Eof {
        seq![t]
    } else if pos < end <= s.len() {
        seq![t] + spec_tokens(s, end)
    } else {
        seq![t]
    }
}

/// The views of a token vector.
pub open spec fn views_of(toks: Seq<Token>) -> Seq<TokView> {
    toks.map_values(|t: Token| t@)
}

/// `comment_end` stays between its start and the end of the text.
pub proof fn lemma_comment_end_bounds(s: Seq<char>, i: int)
    requires
        0 <= i <= s.len(),
    ensures
        i <= comment_end(s, i) <= s.len(),
    decreases s.len() - i,
{
    if i < s.len() && s[i] != '\n' {
        lemma_comment_end_bounds(s, i + 1);
    }
}

/// `skip_trivia` stays between its start and the end of the text.
pub proof fn lemma_skip_trivia_bounds(s: Seq<char>, pos: int)
    requires
        0 <= pos <= s.len(),
    ensures
        pos <= skip_trivia(s, pos) <= s.len(),
    decreases s.len() - pos, 1int,
{
    if pos < s.len() && is_ws(s[pos]) {
        lemma_skip_trivia_bounds(s, pos + 1);
    } else if pos + 1 < s.len() && s[pos] == '/' && s[pos + 1] == '/' {
        lemma_comment_end_bounds(s, pos + 2);
        let j = comment_end(s, pos + 2);
        lemma_skip_trivia_bounds(s, j);
    }
}

/// `digit_end` stays between its start and the end of the text.
pub proof fn lemma_digit_end_bounds(s: Seq<char>, i: int)
    requires
        0 <= i <= s.len(),
    ensures
        i <= digit_end(s, i) <= s.len(),
    decreases s.len() - i,
{
    if i < s.len() && is_digit_char(s[i]) {
        lemma_digit_end_bounds(s, i + 1);
    }
}

/// `ident_end` stays between its start and the end of the text.
pub proof fn lemma_ident_end_bounds(s: Seq<char>, i: int)
    requires
        0 <= i <= s.len(),
    ensures
        i <= ident_end(s, i) <= s.len(),
    decreases s.len() - i,
{
    if i < s.len() && is_ident_char(s[i]) {
        lemma_ident_end_bounds(s, i + 1);
    }
}

/// `str_body_end` stays between its start and the end of the text.
pub proof fn lemma_str_body_end_bounds(s: Seq<char>, i: int)
    requires
        0 <= i <= s.len(),
    ensures
        i <= str_body_end(s, i) <= s.len(),
    decreases s.len() - i,
{
    if i < s.len() && s[i] != '"' && s[i] != '\n' {
        lemma_str_body_end_bounds(s, i + 1);
    }
}

/// Every token ends within the text, a token other than `Eof` covers at
/// least one character past its start, and `Eof` appears exactly at the
/// end of the text.
pub proof fn lemma_token_advances(s: Seq<char>, pos: int)
    requires
        0 <= pos <= s.len(),
    ensures
        pos <= spec_token_at(s, pos).1 <= s.len(),
        skip_trivia(s, pos) <= spec_token_at(s, pos).1,
        !(spec_token_at(s, pos).0.kind is Eof) ==> spec_token_at(s, pos).1 > pos,
        spec_token_at(s, pos).0.kind is Eof <==> skip_trivia(s, pos) == s.len(),
        spec_token_at(s, pos).0.kind is Eof ==> spec_token_at(s, pos).1 == s.len(),
{
    lemma_skip_trivia_bounds(s, pos);
    let j = skip_trivia(s, pos);
    if j < s.len() {
        let c = s[j];
        lemma_str_body_end_bounds(s, j + 1);
        lemma_digit_end_bounds(s, j);
        lemma_ident_end_bounds(s, j);
        if is_digit_char(c) {
            lemma_digit_end_bounds(s, j + 1);
            let d1 = digit_end(s, j);
            if d1 < s.len() && s[d1] == '.' && d1 + 1 < s.len() && is_digit_char(s[d1 + 1]) {
                lemma_digit_end_bounds(s, d1 + 1);
            }
            assert(d1 > j);
        }
        if is_ident_start(c) {
            lemma_ident_end_bounds(s, j + 1);
            assert(ident_end(s, j) > j);
        }
    }
}

/// The scanner's state: the source text and the position, line, and
/// column of the next unread character.
#[derive(Debug)]
pub struct Lexer {
    source: String,
    length: usize,
    current: usize,
    line: usize,
    character: usize,
}

impl Lexer {
    /// The source text being scanned.
    pub closed spec fn src(&self) -> Seq<char> {
        self.source@
    }

    /// The position of the next unread character.
    pub closed spec fn pos(&self) -> int {
        self.current as int
    }

    /// The state is consistent: the position is inside the text and the
    /// line and column counters agree with it.
    pub closed spec fn wf(&self) -> bool {
        &&& self.length == self.source@.len()
        &&& self.current <= self.length
        &&& self.line as int == line_at(self.source@, self.current as int)
        &&& self.character as int == col_at(self.source@, self.current as int)
    }

    /// Creates a new lexer with the given source code.
    pub fn new(source: &str) -> (l: Self)
        ensures
            l.wf(),
            l.src() == source@,
            l.pos() == 0,
    {
        let length = source.unicode_len();
        Lexer { source: source.to_owned(), length, current: 0, line: 1, character: 1 }
    }

    /// Returns the next character in the source code without consuming
    /// it.
    pub fn peek(&self) -> (r: Option<char>)
        requires
            self.wf(),
        ensures
            r == (if self.pos() < self.src().len() {
                Some(self.src()[self.pos()])
            } else {
                None::<char>
            }),
    {
        if self.current < self.length {
            Some(self.source.as_str().get_char(self.current))
        } else {
            None
        }
    }

    /// The character one past the next, used to look ahead of a comment
    /// slash or a decimal point.
    fn peek_ahead(&self) -> (r: Option<char>)
        requires
            self.wf(),
        ensures
            r == (if self.pos() + 1 < self.src().len() {
                Some(self.src()[self.pos() + 1])
            } else {
                None::<char>
            }),
    {
        if self.current < self.length && self.length - self.current > 1 {
            Some(self.source.as_str().get_char(self.current + 1))
        } else {
            None
        }
    }

    /// Consumes the next character in the source code and returns it.
    pub fn consume(&mut self) -> (r: Option<char>)
        requires
            old(self).wf(),
        ensures
            final(self).wf(),
            final(self).src() == old(self).src(),
            old(self).pos() < old(self).src().len() ==> r == Some(
                old(self).src()[old(self).pos()],
            ) && final(self).pos() == old(self).pos() + 1,
            old(self).pos() >= old(self).src().len() ==> r == None::<char> && final(self).pos()
                == old(self).pos(),
    {
        let next = self.peek();
        if let Some(ch) = next {
            if ch == '\n' {
                self.line = sat_inc_exec(self.line);
                self.character = 1;
            } else {
                self.character = sat_inc_exec(self.character);
            }
            self.current = self.current + 1;
        }
        next
    }

    /// Consumes the next character if it matches the expected one.
    pub fn match_next(&mut self, expected: char) -> (r: bool)
        requires
            old(self).wf(),
        ensures
            final(self).wf(),
            final(self).src() == old(self).src(),
            r == (old(self).pos() < old(self).src().len() && old(self).src()[old(self).pos()]
                == expected),
            r ==> final(self).pos() == old(self).pos() + 1,
            !r ==> final(self).pos() == old(self).pos(),
    {
        if self.peek() == Some(expected) {
            self.consume();
            true
        } else {
            false
        }
    }

    /// Skips any whitespace characters in the source code.
    /// Whitespace characters include spaces, tabs, carriage returns, and
    /// newlines.
    pub fn skip_whitespace(&mut self)
        requires
            old(self).wf(),
        ensures
            final(self).wf(),
            final(self).src() == old(self).src(),
            old(self).pos() <= final(self).pos() <= final(self).src().len(),
            skip_trivia(final(self).src(), old(self).pos()) == skip_trivia(
                final(self).src(),
                final(self).pos(),
            ),
            final(self).pos() == final(self).src().len() || !is_ws(
                final(self).src()[final(self).pos()],
            ),
    {
        loop
            invariant
                self.wf(),
                self.src() == old(self).src(),
                old(self).pos() <= self.pos() <= self.src().len(),
                skip_trivia(self.src(), old(self).pos()) == skip_trivia(self.src(), self.pos()),
            ensures
                self.wf(),
                self.src() == old(self).src(),
                old(self).pos() <= self.pos() <= self.src().len(),
                skip_trivia(self.src(), old(self).pos()) == skip_trivia(self.src(), self.pos()),
                self.pos() == self.src().len() || !is_ws(self.src()[self.pos()]),
            decreases self.src().len() - self.pos(),
        {
            match self.peek() {
                Some(ch) => {
                    if ch == ' ' || ch == '\t' || ch == '\r' || ch == '\n' {
                        self.consume();
                    } else {
                        break ;
                    }
                },
                None => {
                    break ;
                },
            }
        }
    }

    /// Returns if the provided digit is a 0-9 digit.
    pub fn is_digit(c: char) -> (r: bool)
        ensures
            r == is_digit_char(c),
    {
        c >= '0' && c <= '9'
    }

    /// Returns if the provided character is an identifier character.
    pub fn is_identifier(c: char) -> (r: bool)
        ensures
            r == is_ident_start(c),
    {
        (c >= 'a' && c <= 'z') || (c >= 'A' && c <= 'Z') || c == '_'
    }

    /// Returns if the provided character is an alphanumeric character.
    pub fn is_aplhanumeric(c: char) -> (r: bool)
        ensures
            r == is_ident_char(c),
    {
        Self::is_digit(c) || Self::is_identifier(c)
    }

    /// Parses an identifier from the input: the maximal run of
    /// identifier characters from the current position.
    pub fn parse_identifier(&mut self) -> (r: String)
        requires
            old(self).wf(),
        ensures
            final(self).wf(),
            final(self).src() == old(self).src(),
            final(self).pos() == ident_end(old(self).src(), old(self).pos()),
            r@ == old(self).src().subrange(old(self).pos(), final(self).pos()),
    {
        let start = self.current;
        loop
            invariant
                self.wf(),
                self.src() == old(self).src(),
                old(self).pos() <= self.pos() <= self.src().len(),
                ident_end(self.src(), old(self).pos()) == ident_end(self.src(), self.pos()),
            ensures
                self.wf(),
                self.src() == old(self).src(),
                old(self).pos() <= self.pos() <= self.src().len(),
                ident_end(self.src(), old(self).pos()) == ident_end(self.src(), self.pos()),
                self.pos() == self.src().len() || !is_ident_char(self.src()[self.pos()]),
            decreases self.src().len() - self.pos(),
        {
            match self.peek() {
                Some(ch) => {
                    if Self::is_aplhanumeric(ch) {
                        self.consume();
                    } else {
                        break ;
                    }
                },
                None => {
                    break ;
                },
            }
        }
        self.source.as_str().substring_char(start, self.current).to_owned()
    }

    /// Parses an integer from the input.  Returns the parsed value,
    /// which saturates at `u64::MAX` for an overlong digit run, and the
    /// number of characters consumed.
    pub fn parse_integer(&mut self) -> (r: (u64, usize))
        requires
            old(self).wf(),
        ensures
            final(self).wf(),
            final(self).src() == old(self).src(),
            final(self).pos() == digit_end(old(self).src(), old(self).pos()),
            r.0 as int == sat64(
                digits_val(old(self).src().subrange(old(self).pos(), final(self).pos())),
            ),
            r.1 == final(self).pos() - old(self).pos(),
    {
        let mut res: u64 = 0;
        let mut consumed: usize = 0;
        proof {
            assert(self.src().subrange(old(self).pos(), self.pos()) =~= Seq::<char>::empty());
        }
        loop
            invariant
                self.wf(),
                self.src() == old(self).src(),
                old(self).pos() <= self.pos() <= self.src().len(),
                digit_end(self.src(), old(self).pos()) == digit_end(self.src(), self.pos()),
                forall|k: int|
                    old(self).pos() <= k < self.pos() ==> is_digit_char(self.src()[k]),
                res as int == sat64(
                    digits_val(self.src().subrange(old(self).pos(), self.pos())),
                ),
                consumed == self.pos() - old(self).pos(),
            ensures
                self.wf(),
                self.src() == old(self).src(),
                old(self).pos() <= self.pos() <= self.src().len(),
                digit_end(self.src(), old(self).pos()) == digit_end(self.src(), self.pos()),
                res as int == sat64(
                    digits_val(self.src().subrange(old(self).pos(), self.pos())),
                ),
                consumed == self.pos() - old(self).pos(),
                self.pos() == self.src().len() || !is_digit_char(self.src()[self.pos()]),
            decreases self.src().len() - self.pos(),
        {
            match self.peek() {
                Some(ch) => {
                    if Self::is_digit(ch) {
                        let ghost s = self.src();
                        let ghost a = old(self).pos();
                        let ghost p = self.pos();
                        let ghost prefix = s.subrange(a, p);
                        self.consume();
                        consumed = consumed + 1;
                        let digit = (ch as u32 - '0' as u32) as u64;
                        let next = match res.checked_mul(10) {
                            Some(x) => match x.checked_add(digit) {
                                Some(y) => y,
                                None => u64::MAX,
                            },
                            None => u64::MAX,
                        };
                        proof {
                            lemma_digits_val_nonneg(prefix);
                            assert(s.subrange(a, p + 1) =~= prefix.push(ch));
                            assert(prefix.push(ch).drop_last() =~= prefix);
                            assert(digits_val(s.subrange(a, p + 1)) == digits_val(prefix) * 10 + (
                            ch as int - '0' as int));
                        }
                        res = next;
                    } else {
                        break ;
                    }
                },
                None => {
                    break ;
                },
            }
        }
        (res, consumed)
    }

    /// Parses a number from the source code: a digit run, and a
    /// fraction when a decimal point is directly followed by another
    /// digit.  A trailing point stays in the stream.
    pub fn parse_number(&mut self) -> (r: Rat)
        requires
            old(self).wf(),
            old(self).pos() < old(self).src().len(),
            is_digit_char(old(self).src()[old(self).pos()]),
        ensures
            final(self).wf(),
            final(self).src() == old(self).src(),
            scan_kind(old(self).src(), old(self).pos()) == (
                TokKind::Num(r@),
                final(self).pos(),
            ),
    {
        let ghost s = self.src();
        let ghost a = self.pos();
        let (ip, _ip_len) = self.parse_integer();
        let ghost d1 = self.pos();
        let mut fr_val: u64 = 0;
        let mut fr_len: usize = 0;
        let dot = self.peek();
        let after = self.peek_ahead();
        let mut has_fraction = false;
        if dot == Some('.') {
            if let Some(next) = after {
                if Self::is_digit(next) {
                    self.consume();
                    let (fv, fl) = self.parse_integer();
                    fr_val = fv;
                    fr_len = fl;
                    has_fraction = true;
                }
            }
        }
        let ghost fr_digits: Seq<char> = if has_fraction {
            s.subrange(d1 + 1, self.pos())
        } else {
            Seq::empty()
        };
        let mut den: u128 = 1;
        let mut k: usize = 0;
        while k < fr_len
            invariant
                k <= fr_len,
                den == pow10_cap(k as nat),
                1 <= den <= max_den(),
            decreases fr_len - k,
        {
            den = den * 10;
            if den > 0x1_0000_0000_0000_0000u128 {
                den = 0x1_0000_0000_0000_0000u128;
            }
            k = k + 1;
        }
        proof {
            assert(fr_digits.len() == fr_len);
            lemma_mul_den_bound(ip as int, den as int);
        }
        let num128 = (ip as u128) * den + (fr_val as u128);
        let num = if num128 > u64::MAX as u128 {
            u64::MAX
        } else {
            num128 as u64
        };
        Rat::new_den1(false, num, (den - 1) as u64)
    }

    /// Parses a string token from the source code, starting at the
    /// opening quote.  An unterminated string stops before the newline
    /// (or at the end), which is not consumed.
    pub fn parse_string_token(&mut self) -> (t: Token)
        requires
            old(self).wf(),
            old(self).pos() < old(self).src().len(),
            old(self).src()[old(self).pos()] == '"',
        ensures
            final(self).wf(),
            final(self).src() == old(self).src(),
            ({
                let (kind, end) = scan_kind(old(self).src(), old(self).pos());
                &&& t@.kind == kind
                &&& t@.lexeme == old(self).src().subrange(old(self).pos(), end)
                &&& t@.line == line_at(old(self).src(), old(self).pos())
                &&& t@.character == col_at(old(self).src(), old(self).pos())
                &&& final(self).pos() == end
            }),
    {
        let start = self.current;
        let tok_line = self.line;
        let tok_char = self.character;
        self.consume();
        loop
            invariant
                self.wf(),
                self.src() == old(self).src(),
                old(self).pos() + 1 <= self.pos() <= self.src().len(),
                str_body_end(self.src(), old(self).pos() + 1) == str_body_end(
                    self.src(),
                    self.pos(),
                ),
            ensures
                self.wf(),
                self.src() == old(self).src(),
                old(self).pos() + 1 <= self.pos() <= self.src().len(),
                str_body_end(self.src(), old(self).pos() + 1) == str_body_end(
                    self.src(),
                    self.pos(),
                ),
                self.pos() == self.src().len() || self.src()[self.pos()] == '"'
                    || self.src()[self.pos()] == '\n',
            decreases self.src().len() - self.pos(),
        {
            match self.peek() {
                Some(ch) => {
                    if ch == '"' || ch == '\n' {
                        break ;
                    }
                    self.consume();
                },
                None => {
                    break ;
                },
            }
        }
        let terminated = match self.peek() {
            Some(ch) => ch == '"',
            None => false,
        };
        if terminated {
            self.consume();
            let literal = self.source.as_str().substring_char(start + 1, self.current - 1)
                .to_owned();
            let lexeme = self.source.as_str().substring_char(start, self.current);
            Token::new(TokenType::String(literal), lexeme, tok_line, tok_char)
        } else {
            let literal = self.source.as_str().substring_char(start + 1, self.current).to_owned();
            let lexeme = self.source.as_str().substring_char(start, self.current);
            Token::new(TokenType::UnterminatedString(literal), lexeme, tok_line, tok_char)
        }
    }
}

impl Lexer {
    /// Returns the next token in the source code: trivia is skipped
    /// first, and the token's position is that of its first character.
    pub fn next_token(&mut self) -> (t: Token)
        requires
            old(self).wf(),
        ensures
            final(self).wf(),
            final(self).src() == old(self).src(),
            (t@, final(self).pos()) == spec_token_at(old(self).src(), old(self).pos()),
            !(t@.kind is Eof) ==> final(self).pos() > old(self).pos(),
            t@.kind is Eof ==> final(self).pos() == final(self).src().len(),
        decreases old(self).src().len() - old(self).pos(),
    {
        let ghost s = old(self).src();
        let ghost a = old(self).pos();
        self.skip_whitespace();
        let c0 = self.peek();
        let c1 = self.peek_ahead();
        if c0 == Some('/') && c1 == Some('/') {
            let ghost cstart = self.pos();
            proof {
                lemma_comment_end_bounds(s, cstart + 2);
            }
            self.consume();
            self.consume();
            loop
                invariant
                    self.wf(),
                    self.src() == s,
                    cstart + 2 <= self.pos() <= s.len(),
                    comment_end(s, cstart + 2) == comment_end(s, self.pos()),
                ensures
                    self.wf(),
                    self.src() == s,
                    cstart + 2 <= self.pos() <= s.len(),
                    comment_end(s, cstart + 2) == comment_end(s, self.pos()),
                    self.pos() == s.len() || s[self.pos()] == '\n',
                decreases s.len() - self.pos(),
            {
                match self.peek() {
                    Some(ch) => {
                        if ch == '\n' {
                            break ;
                        }
                        self.consume();
                    },
                    None => {
                        break ;
                    },
                }
            }
            proof {
                assert(comment_end(s, self.pos()) == self.pos());
                assert(skip_trivia(s, cstart) == skip_trivia(s, self.pos()));
                assert(skip_trivia(s, a) == skip_trivia(s, self.pos()));
            }
            let ghost call_pos = self.pos();
            let t = self.next_token();
            proof {
                assert(spec_token_at(s, a) == spec_token_at(s, call_pos));
            }
            return t;
        }
        proof {
            assert(skip_trivia(s, self.pos()) == self.pos());
            assert(skip_trivia(s, a) == self.pos());
            lemma_skip_trivia_bounds(s, a);
        }
        let start = self.current;
        let tok_line = self.line;
        let tok_char = self.character;
        let ghost j = self.pos();
        match self.peek() {
            None => {
                let t = Token::new(TokenType::EOF, "", tok_line, tok_char);
                proof {
                    reveal_strlit("");
                    assert(t@.lexeme =~= s.subrange(j, j));
                }
                t
            },
            Some(ch) => {
                if Self::is_digit(ch) {
                    let num = self.parse_number();
                    proof {
                        lemma_digit_end_bounds(s, j + 1);
                        lemma_digit_end_bounds(s, j);
                        let d1 = digit_end(s, j);
                        if d1 < s.len() && s[d1] == '.' && d1 + 1 < s.len() && is_digit_char(
                            s[d1 + 1],
                        ) {
                            lemma_digit_end_bounds(s, d1 + 1);
                        }
                    }
                    let lexeme = self.source.as_str().substring_char(start, self.current);
                    let t = Token::new(TokenType::Number(num), lexeme, tok_line, tok_char);
                    return t;
                }
                if Self::is_identifier(ch) {
                    proof {
                        lemma_ident_end_bounds(s, j + 1);
                    }
                    let identifier = self.parse_identifier();
                    if let Some(keyword) = TokenType::check_keyword(identifier.as_str()) {
                        return Token::new(keyword, identifier.as_str(), tok_line, tok_char);
                    }
                    return Token::new(
                        TokenType::Identifier(identifier.clone()),
                        identifier.as_str(),
                        tok_line,
                        tok_char,
                    );
                }
                if ch == '"' {
                    proof {
                        lemma_str_body_end_bounds(s, j + 1);
                    }
                    return self.parse_string_token();
                }
                self.consume();
                match ch {
                    '(' => {
                        let t = Token::new(TokenType::LeftParen, "(", tok_line, tok_char);
                        proof {
                            reveal_strlit("(");
                            assert(t@.lexeme =~= s.subrange(j, j + 1));
                        }
                        t
                    },
                    ')' => {
                        let t = Token::new(TokenType::RightParen, ")", tok_line, tok_char);
                        proof {
                            reveal_strlit(")");
                            assert(t@.lexeme =~= s.subrange(j, j + 1));
                        }
                        t
                    },
                    '{' => {
                        let t = Token::new(TokenType::LeftBrace, "{", tok_line, tok_char);
                        proof {
                            reveal_strlit("{");
                            assert(t@.lexeme =~= s.subrange(j, j + 1));
                        }
                        t
                    },
                    '}' => {
                        let t = Token::new(TokenType::RightBrace, "}", tok_line, tok_char);
                        proof {
                            reveal_strlit("}");
                            assert(t@.lexeme =~= s.subrange(j, j + 1));
                        }
                        t
                    },
                    '*' => {
                        let t = Token::new(TokenType::Star, "*", tok_line, tok_char);
                        proof {
                            reveal_strlit("*");
                            assert(t@.lexeme =~= s.subrange(j, j + 1));
                        }
                        t
                    },
                    '.' => {
                        let t = Token::new(TokenType::Dot, ".", tok_line, tok_char);
                        proof {
                            reveal_strlit(".");
                            assert(t@.lexeme =~= s.subrange(j, j + 1));
                        }
                        t
                    },
                    ',' => {
                        let t = Token::new(TokenType::Comma, ",", tok_line, tok_char);
                        proof {
                            reveal_strlit(",");
                            assert(t@.lexeme =~= s.subrange(j, j + 1));
                        }
                        t
                    },
                    ';' => {
                        let t = Token::new(TokenType::Semicolon, ";", tok_line, tok_char);
                        proof {
                            reveal_strlit(";");
                            assert(t@.lexeme =~= s.subrange(j, j + 1));
                        }
                        t
                    },
                    '+' => {
                        let t = Token::new(TokenType::Plus, "+", tok_line, tok_char);
                        proof {
                            reveal_strlit("+");
                            assert(t@.lexeme =~= s.subrange(j, j + 1));
                        }
                        t
                    },
                    '-' => {
                        let t = Token::new(TokenType::Minus, "-", tok_line, tok_char);
                        proof {
                            reveal_strlit("-");
                            assert(t@.lexeme =~= s.subrange(j, j + 1));
                        }
                        t
                    },
                    '/' => {
                        let t = Token::new(TokenType::Slash, "/", tok_line, tok_char);
                        proof {
                            reveal_strlit("/");
                            assert(t@.lexeme =~= s.subrange(j, j + 1));
                        }
                        t
                    },
                    '=' => {
                        if self.match_next('=') {
                            let t = Token::new(TokenType::EqualEqual, "==", tok_line, tok_char);
                            proof {
                                reveal_strlit("==");
                                assert(t@.lexeme =~= s.subrange(j, j + 2));
                            }
                            t
                        } else {
                            let t = Token::new(TokenType::Equal, "=", tok_line, tok_char);
                            proof {
                                reveal_strlit("=");
                                assert(t@.lexeme =~= s.subrange(j, j + 1));
                            }
                            t
                        }
                    },
                    '!' => {
                        if self.match_next('=') {
                            let t = Token::new(TokenType::BangEqual, "!=", tok_line, tok_char);
                            proof {
                                reveal_strlit("!=");
                                assert(t@.lexeme =~= s.subrange(j, j + 2));
                            }
                            t
                        } else {
                            let t = Token::new(TokenType::Bang, "!", tok_line, tok_char);
                            proof {
                                reveal_strlit("!");
                                assert(t@.lexeme =~= s.subrange(j, j + 1));
                            }
                            t
                        }
                    },
                    '>' => {
                        if self.match_next('=') {
                            let t = Token::new(TokenType::GreaterEqual, ">=", tok_line, tok_char);
                            proof {
                                reveal_strlit(">=");
                                assert(t@.lexeme =~= s.subrange(j, j + 2));
                            }
                            t
                        } else {
                            let t = Token::new(TokenType::Greater, ">", tok_line, tok_char);
                            proof {
                                reveal_strlit(">");
                                assert(t@.lexeme =~= s.subrange(j, j + 1));
                            }
                            t
                        }
                    },
                    '<' => {
                        if self.match_next('=') {
                            let t = Token::new(TokenType::LessEqual, "<=", tok_line, tok_char);
                            proof {
                                reveal_strlit("<=");
                                assert(t@.lexeme =~= s.subrange(j, j + 2));
                            }
                            t
                        } else {
                            let t = Token::new(TokenType::Less, "<", tok_line, tok_char);
                            proof {
                                reveal_strlit("<");
                                assert(t@.lexeme =~= s.subrange(j, j + 1));
                            }
                            t
                        }
                    },
                    _ => {
                        let lexeme = self.source.as_str().substring_char(start, self.current);
                        let t = Token::new(TokenType::Unknown, lexeme, tok_line, tok_char);
                        t
                    },
                }
            },
        }
    }

    /// Returns a vector of tokens from the source code: every token up
    /// to and including the single final `EOF`.
    pub fn get_tokens(&mut self) -> (tokens: Vec<Token>)
        requires
            old(self).wf(),
        ensures
            final(self).wf(),
            final(self).src() == old(self).src(),
            views_of(tokens@) == spec_tokens(old(self).src(), old(self).pos()),
            tokens@.len() >= 1,
            tokens@.last()@.kind is Eof,
            forall|i: int| 0 <= i < tokens@.len() - 1 ==> !(#[trigger] tokens@[i]@.kind is Eof),
    {
        let ghost s = old(self).src();
        let ghost a = old(self).pos();
        let mut tokens: Vec<Token> = Vec::new();
        let mut to_break = false;
        while !to_break
            invariant
                self.wf(),
                self.src() == s,
                0 <= a <= self.pos() <= s.len(),
                spec_tokens(s, a) =~= views_of(tokens@) + (if to_break {
                    Seq::<TokView>::empty()
                } else {
                    spec_tokens(s, self.pos())
                }),
                to_break ==> tokens@.len() >= 1 && tokens@.last()@.kind is Eof,
                forall|i: int|
                    0 <= i < tokens@.len() - (if to_break {
                        1int
                    } else {
                        0int
                    }) ==> !(#[trigger] tokens@[i]@.kind is Eof),
            decreases s.len() - self.pos() + (if to_break {
                0int
            } else {
                1int
            }),
        {
            let ghost p = self.pos();
            let token = self.next_token();
            if let TokenType::EOF = &token.token_type {
                to_break = true;
            }
            proof {
                assert(views_of(tokens@.push(token)) =~= views_of(tokens@).push(token@));
            }
            tokens.push(token);
        }
        proof {
            assert(views_of(tokens@) + Seq::<TokView>::empty() =~= views_of(tokens@));
        }
        tokens
    }
}

/// The value of a digit string is non-negative.
proof fn lemma_digits_val_nonneg(s: Seq<char>)
    requires
        forall|k: int| 0 <= k < s.len() ==> is_digit_char(s[k]),
    ensures
        digits_val(s) >= 0,
    decreases s.len(),
{
    if s.len() > 0 {
        assert(forall|k: int| 0 <= k < s.drop_last().len() ==> is_digit_char(s.drop_last()[k]));
        lemma_digits_val_nonneg(s.drop_last());
    }
}

/// The product of a saturated numerator and a capped power of ten stays
/// within 128 bits even after the fraction is added.
proof fn lemma_mul_den_bound(ip: int, den: int)
    requires
        0 <= ip <= u64::MAX as int,
        1 <= den <= max_den(),
    ensures
        0 <= ip * den,
        ip * den + u64::MAX as int <= u128::MAX as int,
{
    assert(0 <= ip * den && ip * den + 0xffff_ffff_ffff_ffff
        <= 0xffffffffffffffffffffffffffffffff) by (nonlinear_arith)
        requires
            0 <= ip <= 0xffff_ffff_ffff_ffff,
            1 <= den <= 0x1_0000_0000_0000_0000,
    ;
}

/// Bumps a counter, sticking at the top of the range.
fn sat_inc_exec(n: usize) -> (r: usize)
    ensures
        r as int == sat_inc(n as int),
{
    if n < usize::MAX {
        n + 1
    } else {
        n
    }
}

} // verus!
