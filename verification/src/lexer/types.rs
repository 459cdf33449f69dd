//! The token classification: one variant per kind of token the scanner
//! can produce, with payloads for literals, plus the keyword table.

use vstd::prelude::*;

use crate::numeric::rat_eq;
use crate::numeric::Rat;
use crate::numeric::RatV;
use crate::text::str_eq;

verus! {

/// The kind of a token.  Literal-bearing variants carry their payload:
/// the text of a string or identifier, or the exact numeric value.
#[allow(non_camel_case_types)]
#[derive(Debug)]
pub enum TokenType {
    EOF,
    Unknown,
    // Braces and parentheses
    LeftParen,
    RightParen,
    LeftBrace,
    RightBrace,
    // Operators
    Star,
    Dot,
    Comma,
    Semicolon,
    Plus,
    Minus,
    Slash,
    // Equality and negation
    Bang,
    Equal,
    EqualEqual,
    BangEqual,
    // Relational operators
    Greater,
    GreaterEqual,
    Less,
    LessEqual,
    // Literals
    String(String),
    Identifier(String),
    UnterminatedString(String),
    Number(Rat),
    // Keywords
    AND,
    CLASS,
    ELSE,
    FALSE,
    FOR,
    FUN,
    IF,
    NIL,
    OR,
    PRINT,
    RETURN,
    SUPER,
    THIS,
    TRUE,
    VAR,
    WHILE,
}

/// The mathematical shape of a token kind: payloads are character
/// sequences and rational values.
pub enum TokKind {
    Eof,
    Unknown,
    LeftParen,
    RightParen,
    LeftBrace,
    RightBrace,
    Star,
    Dot,
    Comma,
    Semicolon,
    Plus,
    Minus,
    Slash,
    Bang,
    Equal,
    EqualEqual,
    BangEqual,
    Greater,
    GreaterEqual,
    Less,
    LessEqual,
    StrLit(Seq<char>),
    Ident(Seq<char>),
    Unterminated(Seq<char>),
    Num(RatV),
    And,
    Class,
    Else,
    False,
    For,
    Fun,
    If,
    Nil,
    Or,
    Print,
    Return,
    Super,
    This,
    True,
    Var,
    While,
}

impl View for TokenType {
    type V = TokKind;

    open spec fn view(&self) -> TokKind {
        match self {
            TokenType::EOF => TokKind::Eof,
            TokenType::Unknown => TokKind::Unknown,
            TokenType::LeftParen => TokKind::LeftParen,
            TokenType::RightParen => TokKind::RightParen,
            TokenType::LeftBrace => TokKind::LeftBrace,
            TokenType::RightBrace => TokKind::RightBrace,
            TokenType::Star => TokKind::Star,
            TokenType::Dot => TokKind::Dot,
            TokenType::Comma => TokKind::Comma,
            TokenType::Semicolon => TokKind::Semicolon,
            TokenType::Plus => TokKind::Plus,
            TokenType::Minus => TokKind::Minus,
            TokenType::Slash => TokKind::Slash,
            TokenType::Bang => TokKind::Bang,
            TokenType::Equal => TokKind::Equal,
            TokenType::EqualEqual => TokKind::EqualEqual,
            TokenType::BangEqual => TokKind::BangEqual,
            TokenType::Greater => TokKind::Greater,
            TokenType::GreaterEqual => TokKind::GreaterEqual,
            TokenType::Less => TokKind::Less,
            TokenType::LessEqual => TokKind::LessEqual,
            TokenType::String(s) => TokKind::StrLit(s@),
            TokenType::Identifier(s) => TokKind::Ident(s@),
            TokenType::UnterminatedString(s) => TokKind::Unterminated(s@),
            TokenType::Number(n) => TokKind::Num(n@),
            TokenType::AND => TokKind::And,
            TokenType::CLASS => TokKind::Class,
            TokenType::ELSE => TokKind::Else,
            TokenType::FALSE => TokKind::False,
            TokenType::FOR => TokKind::For,
            TokenType::FUN => TokKind::Fun,
            TokenType::IF => TokKind::If,
            TokenType::NIL => TokKind::Nil,
            TokenType::OR => TokKind::Or,
            TokenType::PRINT => TokKind::Print,
            TokenType::RETURN => TokKind::Return,
            TokenType::SUPER => TokKind::Super,
            TokenType::THIS => TokKind::This,
            TokenType::VAR => TokKind::Var,
            TokenType::TRUE => TokKind::True,
            TokenType::WHILE => TokKind::While,
        }
    }
}

impl Clone for TokenType {
    /// An exact copy, so cloned tokens carry the same classification.
    fn clone(&self) -> (res: Self)
        ensures
            res == *self,
    {
        match self {
            TokenType::EOF => TokenType::EOF,
            TokenType::Unknown => TokenType::Unknown,
            TokenType::LeftParen => TokenType::LeftParen,
            TokenType::RightParen => TokenType::RightParen,
            TokenType::LeftBrace => TokenType::LeftBrace,
            TokenType::RightBrace => TokenType::RightBrace,
            TokenType::Star => TokenType::Star,
            TokenType::Dot => TokenType::Dot,
            TokenType::Comma => TokenType::Comma,
            TokenType::Semicolon => TokenType::Semicolon,
            TokenType::Plus => TokenType::Plus,
            TokenType::Minus => TokenType::Minus,
            TokenType::Slash => TokenType::Slash,
            TokenType::Bang => TokenType::Bang,
            TokenType::Equal => TokenType::Equal,
            TokenType::EqualEqual => TokenType::EqualEqual,
            TokenType::BangEqual => TokenType::BangEqual,
            TokenType::Greater => TokenType::Greater,
            TokenType::GreaterEqual => TokenType::GreaterEqual,
            TokenType::Less => TokenType::Less,
            TokenType::LessEqual => TokenType::LessEqual,
            TokenType::String(s) => TokenType::String(s.clone()),
            TokenType::Identifier(s) => TokenType::Identifier(s.clone()),
            TokenType::UnterminatedString(s) => TokenType::UnterminatedString(s.clone()),
            TokenType::Number(n) => TokenType::Number(*n),
            TokenType::AND => TokenType::AND,
            TokenType::CLASS => TokenType::CLASS,
            TokenType::ELSE => TokenType::ELSE,
            TokenType::FALSE => TokenType::FALSE,
            TokenType::FOR => TokenType::FOR,
            TokenType::FUN => TokenType::FUN,
            TokenType::IF => TokenType::IF,
            TokenType::NIL => TokenType::NIL,
            TokenType::OR => TokenType::OR,
            TokenType::PRINT => TokenType::PRINT,
            TokenType::RETURN => TokenType::RETURN,
            TokenType::SUPER => TokenType::SUPER,
            TokenType::THIS => TokenType::THIS,
            TokenType::TRUE => TokenType::TRUE,
            TokenType::VAR => TokenType::VAR,
            TokenType::WHILE => TokenType::WHILE,
        }
    }
}

/// Whether two token kinds match: the same variant, and for literals the
/// same payload (numbers compare by value).  This is the membership test
/// the parser uses against its lists of expected kinds.  Kept opaque so
/// its large case analysis is only opened where needed.
#[verifier::opaque]
pub open spec fn tt_matches(a: TokKind, b: TokKind) -> bool {
    match (a, b) {
        (TokKind::Eof, TokKind::Eof) => true,
        (TokKind::Unknown, TokKind::Unknown) => true,
        (TokKind::LeftParen, TokKind::LeftParen) => true,
        (TokKind::RightParen, TokKind::RightParen) => true,
        (TokKind::LeftBrace, TokKind::LeftBrace) => true,
        (TokKind::RightBrace, TokKind::RightBrace) => true,
        (TokKind::Star, TokKind::Star) => true,
        (TokKind::Dot, TokKind::Dot) => true,
        (TokKind::Comma, TokKind::Comma) => true,
        (TokKind::Semicolon, TokKind::Semicolon) => true,
        (TokKind::Plus, TokKind::Plus) => true,
        (TokKind::Minus, TokKind::Minus) => true,
        (TokKind::Slash, TokKind::Slash) => true,
        (TokKind::Bang, TokKind::Bang) => true,
        (TokKind::Equal, TokKind::Equal) => true,
        (TokKind::EqualEqual, TokKind::EqualEqual) => true,
        (TokKind::BangEqual, TokKind::BangEqual) => true,
        (TokKind::Greater, TokKind::Greater) => true,
        (TokKind::GreaterEqual, TokKind::GreaterEqual) => true,
        (TokKind::Less, TokKind::Less) => true,
        (TokKind::LessEqual, TokKind::LessEqual) => true,
        (TokKind::StrLit(x), TokKind::StrLit(y)) => x == y,
        (TokKind::Ident(x), TokKind::Ident(y)) => x == y,
        (TokKind::Unterminated(x), TokKind::Unterminated(y)) => x == y,
        (TokKind::Num(x), TokKind::Num(y)) => rat_eq(x, y),
        (TokKind::And, TokKind::And) => true,
        (TokKind::Class, TokKind::Class) => true,
        (TokKind::Else, TokKind::Else) => true,
        (TokKind::False, TokKind::False) => true,
        (TokKind::For, TokKind::For) => true,
        (TokKind::Fun, TokKind::Fun) => true,
        (TokKind::If, TokKind::If) => true,
        (TokKind::Nil, TokKind::Nil) => true,
        (TokKind::Or, TokKind::Or) => true,
        (TokKind::Print, TokKind::Print) => true,
        (TokKind::Return, TokKind::Return) => true,
        (TokKind::Super, TokKind::Super) => true,
        (TokKind::This, TokKind::This) => true,
        (TokKind::True, TokKind::True) => true,
        (TokKind::Var, TokKind::Var) => true,
        (TokKind::While, TokKind::While) => true,
        _ => false,
    }
}

/// For a payload-free kind `b`, matching is simply being the same kind.
pub proof fn lemma_tt_matches_simple(a: TokKind, b: TokKind)
    requires
        !(b is StrLit),
        !(b is Ident),
        !(b is Unterminated),
        !(b is Num),
    ensures
        tt_matches(a, b) <==> a == b,
{
    reveal(tt_matches);
}

/// Decides [`tt_matches`] on concrete token kinds.
pub fn token_type_eq(a: &TokenType, b: &TokenType) -> (r: bool)
    ensures
        r == tt_matches(a@, b@),
{
    proof {
        reveal(tt_matches);
    }
    match (a, b) {
        (TokenType::EOF, TokenType::EOF) => true,
        (TokenType::Unknown, TokenType::Unknown) => true,
        (TokenType::LeftParen, TokenType::LeftParen) => true,
        (TokenType::RightParen, TokenType::RightParen) => true,
        (TokenType::LeftBrace, TokenType::LeftBrace) => true,
        (TokenType::RightBrace, TokenType::RightBrace) => true,
        (TokenType::Star, TokenType::Star) => true,
        (TokenType::Dot, TokenType::Dot) => true,
        (TokenType::Comma, TokenType::Comma) => true,
        (TokenType::Semicolon, TokenType::Semicolon) => true,
        (TokenType::Plus, TokenType::Plus) => true,
        (TokenType::Minus, TokenType::Minus) => true,
        (TokenType::Slash, TokenType::Slash) => true,
        (TokenType::Bang, TokenType::Bang) => true,
        (TokenType::Equal, TokenType::Equal) => true,
        (TokenType::EqualEqual, TokenType::EqualEqual) => true,
        (TokenType::BangEqual, TokenType::BangEqual) => true,
        (TokenType::Greater, TokenType::Greater) => true,
        (TokenType::GreaterEqual, TokenType::GreaterEqual) => true,
        (TokenType::Less, TokenType::Less) => true,
        (TokenType::LessEqual, TokenType::LessEqual) => true,
        (TokenType::String(x), TokenType::String(y)) => str_eq(x.as_str(), y.as_str()),
        (TokenType::Identifier(x), TokenType::Identifier(y)) => str_eq(x.as_str(), y.as_str()),
        (TokenType::UnterminatedString(x), TokenType::UnterminatedString(y)) => str_eq(
            x.as_str(),
            y.as_str(),
        ),
        (TokenType::Number(x), TokenType::Number(y)) => x.eq_val(y),
        (TokenType::AND, TokenType::AND) => true,
        (TokenType::CLASS, TokenType::CLASS) => true,
        (TokenType::ELSE, TokenType::ELSE) => true,
        (TokenType::FALSE, TokenType::FALSE) => true,
        (TokenType::FOR, TokenType::FOR) => true,
        (TokenType::FUN, TokenType::FUN) => true,
        (TokenType::IF, TokenType::IF) => true,
        (TokenType::NIL, TokenType::NIL) => true,
        (TokenType::OR, TokenType::OR) => true,
        (TokenType::PRINT, TokenType::PRINT) => true,
        (TokenType::RETURN, TokenType::RETURN) => true,
        (TokenType::SUPER, TokenType::SUPER) => true,
        (TokenType::THIS, TokenType::THIS) => true,
        (TokenType::TRUE, TokenType::TRUE) => true,
        (TokenType::VAR, TokenType::VAR) => true,
        (TokenType::WHILE, TokenType::WHILE) => true,
        _ => false,
    }
}

/// The keyword table: the kind for a reserved word, if the text is one.
pub open spec fn keyword_kind(s: Seq<char>) -> Option<TokKind> {
    if s == "and"@ {
        Some(TokKind::And)
    } else if s == "class"@ {
        Some(TokKind::Class)
    } else if s == "else"@ {
        Some(TokKind::Else)
    } else if s == "false"@ {
        Some(TokKind::False)
    } else if s == "for"@ {
        Some(TokKind::For)
    } else if s == "fun"@ {
        Some(TokKind::Fun)
    } else if s == "if"@ {
        Some(TokKind::If)
    } else if s == "nil"@ {
        Some(TokKind::Nil)
    } else if s == "or"@ {
        Some(TokKind::Or)
    } else if s == "print"@ {
        Some(TokKind::Print)
    } else if s == "return"@ {
        Some(TokKind::Return)
    } else if s == "super"@ {
        Some(TokKind::Super)
    } else if s == "this"@ {
        Some(TokKind::This)
    } else if s == "true"@ {
        Some(TokKind::True)
    } else if s == "var"@ {
        Some(TokKind::Var)
    } else if s == "while"@ {
        Some(TokKind::While)
    } else {
        None
    }
}

impl TokenType {
    /// Looks the text up in the keyword table.
    pub fn check_keyword(str: &str) -> (r: Option<Self>)
        ensures
            match r {
                Some(t) => keyword_kind(str@) == Some(t@),
                None => keyword_kind(str@) is None,
            },
    {
        if str_eq(str, "and") {
            Some(Self::AND)
        } else if str_eq(str, "class") {
            Some(Self::CLASS)
        } else if str_eq(str, "else") {
            Some(Self::ELSE)
        } else if str_eq(str, "false") {
            Some(Self::FALSE)
        } else if str_eq(str, "for") {
            Some(Self::FOR)
        } else if str_eq(str, "fun") {
            Some(Self::FUN)
        } else if str_eq(str, "if") {
            Some(Self::IF)
        } else if str_eq(str, "nil") {
            Some(Self::NIL)
        } else if str_eq(str, "or") {
            Some(Self::OR)
        } else if str_eq(str, "print") {
            Some(Self::PRINT)
        } else if str_eq(str, "return") {
            Some(Self::RETURN)
        } else if str_eq(str, "super") {
            Some(Self::SUPER)
        } else if str_eq(str, "this") {
            Some(Self::THIS)
        } else if str_eq(str, "true") {
            Some(Self::TRUE)
        } else if str_eq(str, "var") {
            Some(Self::VAR)
        } else if str_eq(str, "while") {
            Some(Self::WHILE)
        } else {
            None
        }
    }
}

/// The display name of a token kind, as listed by the `tokenize`
/// command.
pub open spec fn kind_name(k: TokKind) -> Seq<char> {
    match k {
        TokKind::Eof => "EOF"@,
        TokKind::Unknown => "Unknown"@,
        TokKind::LeftParen => "LEFT_PAREN"@,
        TokKind::RightParen => "RIGHT_PAREN"@,
        TokKind::LeftBrace => "LEFT_BRACE"@,
        TokKind::RightBrace => "RIGHT_BRACE"@,
        TokKind::Star => "STAR"@,
        TokKind::Dot => "DOT"@,
        TokKind::Comma => "COMMA"@,
        TokKind::Semicolon => "SEMICOLON"@,
        TokKind::Plus => "PLUS"@,
        TokKind::Minus => "MINUS"@,
        TokKind::Slash => "SLASH"@,
        TokKind::Bang => "BANG"@,
        TokKind::Equal => "EQUAL"@,
        TokKind::EqualEqual => "EQUAL_EQUAL"@,
        TokKind::BangEqual => "BANG_EQUAL"@,
        TokKind::Greater => "GREATER"@,
        TokKind::GreaterEqual => "GREATER_EQUAL"@,
        TokKind::Less => "LESS"@,
        TokKind::LessEqual => "LESS_EQUAL"@,
        TokKind::StrLit(_) => "STRING"@,
        TokKind::Ident(_) => "IDENTIFIER"@,
        TokKind::Unterminated(_) => "UnterminatedString"@,
        TokKind::Num(_) => "NUMBER"@,
        TokKind::And => "AND"@,
        TokKind::Class => "CLASS"@,
        TokKind::Else => "ELSE"@,
        TokKind::False => "FALSE"@,
        TokKind::For => "FOR"@,
        TokKind::Fun => "FUN"@,
        TokKind::If => "IF"@,
        TokKind::Nil => "NIL"@,
        TokKind::Or => "OR"@,
        TokKind::Print => "PRINT"@,
        TokKind::Return => "RETURN"@,
        TokKind::Super => "SUPER"@,
        TokKind::This => "THIS"@,
        TokKind::True => "TRUE"@,
        TokKind::Var => "VAR"@,
        TokKind::While => "WHILE"@,
    }
}


/// The display name of a concrete token kind; see [`kind_name`].
pub fn name_of_type(t: &TokenType) -> (r: String)
    ensures
        r@ == kind_name(t@),
{
    match t {
        TokenType::EOF => String::from_str("EOF"),
        TokenType::Unknown => String::from_str("Unknown"),
        TokenType::LeftParen => String::from_str("LEFT_PAREN"),
        TokenType::RightParen => String::from_str("RIGHT_PAREN"),
        TokenType::LeftBrace => String::from_str("LEFT_BRACE"),
        TokenType::RightBrace => String::from_str("RIGHT_BRACE"),
        TokenType::Star => String::from_str("STAR"),
        TokenType::Dot => String::from_str("DOT"),
        TokenType::Comma => String::from_str("COMMA"),
        TokenType::Semicolon => String::from_str("SEMICOLON"),
        TokenType::Plus => String::from_str("PLUS"),
        TokenType::Minus => String::from_str("MINUS"),
        TokenType::Slash => String::from_str("SLASH"),
        TokenType::Bang => String::from_str("BANG"),
        TokenType::Equal => String::from_str("EQUAL"),
        TokenType::EqualEqual => String::from_str("EQUAL_EQUAL"),
        TokenType::BangEqual => String::from_str("BANG_EQUAL"),
        TokenType::Greater => String::from_str("GREATER"),
        TokenType::GreaterEqual => String::from_str("GREATER_EQUAL"),
        TokenType::Less => String::from_str("LESS"),
        TokenType::LessEqual => String::from_str("LESS_EQUAL"),
        TokenType::String(_) => String::from_str("STRING"),
        TokenType::Identifier(_) => String::from_str("IDENTIFIER"),
        TokenType::UnterminatedString(_) => String::from_str("UnterminatedString"),
        TokenType::Number(_) => String::from_str("NUMBER"),
        TokenType::AND => String::from_str("AND"),
        TokenType::CLASS => String::from_str("CLASS"),
        TokenType::ELSE => String::from_str("ELSE"),
        TokenType::FALSE => String::from_str("FALSE"),
        TokenType::FOR => String::from_str("FOR"),
        TokenType::FUN => String::from_str("FUN"),
        TokenType::IF => String::from_str("IF"),
        TokenType::NIL => String::from_str("NIL"),
        TokenType::OR => String::from_str("OR"),
        TokenType::PRINT => String::from_str("PRINT"),
        TokenType::RETURN => String::from_str("RETURN"),
        TokenType::SUPER => String::from_str("SUPER"),
        TokenType::THIS => String::from_str("THIS"),
        TokenType::TRUE => String::from_str("TRUE"),
        TokenType::VAR => String::from_str("VAR"),
        TokenType::WHILE => String::from_str("WHILE"),
    }
}

} // verus!
