//! Tokens: a classification, the exact source text that produced the
//! token, and the source position where it started.

use vstd::prelude::*;

use crate::lexer::types::kind_name;
use crate::lexer::types::TokKind;
use crate::lexer::types::TokenType;
use crate::numeric::rat_value_str;
use crate::text::dec_digits;
use crate::text::push_u64;

verus! {

/// A single token.
#[derive(Debug)]
pub struct Token {
    pub token_type: TokenType,
    pub lexeme: String,
    pub line: usize,
    pub character: usize,
}

/// The mathematical shape of a token.
pub struct TokView {
    pub kind: TokKind,
    pub lexeme: Seq<char>,
    pub line: int,
    pub character: int,
}

impl View for Token {
    type V = TokView;

    open spec fn view(&self) -> TokView {
        TokView {
            kind: self.token_type@,
            lexeme: self.lexeme@,
            line: self.line as int,
            character: self.character as int,
        }
    }
}

impl Clone for Token {
    /// An exact copy.
    fn clone(&self) -> (res: Self)
        ensures
            res == *self,
    {
        Token {
            token_type: self.token_type.clone(),
            lexeme: self.lexeme.clone(),
            line: self.line,
            character: self.character,
        }
    }
}

/// The literal column of a token listing: the string contents for a
/// string literal, the forced-decimal value for a number, `null`
/// otherwise.
pub open spec fn value_str(k: TokKind) -> Seq<char> {
    match k {
        TokKind::Num(v) => rat_value_str(v),
        TokKind::StrLit(s) => s,
        _ => "null"@,
    }
}

/// The line a token renders as under the `tokenize` command: an error
/// report for the two error-bearing kinds, otherwise name, lexeme, and
/// literal separated by single spaces.
pub open spec fn token_display(t: TokView) -> Seq<char> {
    match t.kind {
        TokKind::Unterminated(_) => "[line "@ + dec_digits(t.line as nat)
            + "] Error: Unterminated string."@,
        TokKind::Unknown => "[line "@ + dec_digits(t.line as nat)
            + "] Error: Unexpected character: "@ + t.lexeme,
        _ => kind_name(t.kind) + " "@ + t.lexeme + " "@ + value_str(t.kind),
    }
}

impl Token {
    /// Creates a new token with the given token type, lexeme, line, and
    /// character values.
    pub fn new(token_type: TokenType, lexeme: &str, line: usize, character: usize) -> (t: Token)
        ensures
            t@ == (TokView {
                kind: token_type@,
                lexeme: lexeme@,
                line: line as int,
                character: character as int,
            }),
    {
        Token { token_type, lexeme: lexeme.to_owned(), line, character }
    }

    /// Creates a new token with the default line and character values of
    /// 0.  This is intended to be only used for testing purposes.
    pub fn new_default(token_type: TokenType, lexeme: &str) -> (t: Token)
        ensures
            t@ == (TokView { kind: token_type@, lexeme: lexeme@, line: 0int, character: 0int }),
    {
        Token { token_type, lexeme: lexeme.to_owned(), line: 0, character: 0 }
    }

    /// Returns the value of the token as a string.
    pub fn get_value(&self) -> (r: String)
        ensures
            r@ == value_str(self@.kind),
    {
        match &self.token_type {
            TokenType::Number(val) => val.to_value_string(),
            TokenType::String(val) => val.clone(),
            _ => String::from_str("null"),
        }
    }

    /// Returns the name of the token type as a string.
    pub fn get_name(&self) -> (r: String)
        ensures
            r@ == kind_name(self@.kind),
    {
        crate::lexer::types::name_of_type(&self.token_type)
    }

    /// Returns a string representation of the token in the format
    /// `<token_type> <lexeme> <literal>`; error tokens render as their
    /// error report instead.  This is used for the `tokenize` command.
    pub fn tokenized_string(&self) -> (r: String)
        ensures
            r@ == token_display(self@),
    {
        match &self.token_type {
            TokenType::UnterminatedString(_) => {
                proof {
                    reveal_strlit("[line ");
                    reveal_strlit("] Error: Unterminated string.");
                }
                let mut s = String::from_str("[line ");
                push_u64(&mut s, self.line as u64);
                s.append("] Error: Unterminated string.");
                proof {
                    assert(s@ =~= token_display(self@));
                }
                s
            },
            TokenType::Unknown => {
                proof {
                    reveal_strlit("[line ");
                    reveal_strlit("] Error: Unexpected character: ");
                }
                let mut s = String::from_str("[line ");
                push_u64(&mut s, self.line as u64);
                s.append("] Error: Unexpected character: ");
                s.append(self.lexeme.as_str());
                proof {
                    assert(s@ =~= token_display(self@));
                }
                s
            },
            _ => {
                proof {
                    reveal_strlit(" ");
                }
                let mut s = self.get_name();
                s.append(" ");
                s.append(self.lexeme.as_str());
                s.append(" ");
                let value = self.get_value();
                s.append(value.as_str());
                proof {
                    assert(s@ =~= token_display(self@));
                }
                s
            },
        }
    }

    /// Whether the token is one of the two error-bearing kinds.
    pub fn is_error(&self) -> (r: bool)
        ensures
            r == (self@.kind is Unknown || self@.kind is Unterminated),
    {
        match self.token_type {
            TokenType::Unknown | TokenType::UnterminatedString(_) => true,
            _ => false,
        }
    }
}

} // verus!
