use lox_expr::lexer::token::Token;
use lox_expr::lexer::types::TokenType;
use lox_expr::numeric::Rat;

#[test]
fn token_new_keeps_its_fields() {
    let t = Token::new(TokenType::Plus, "+", 3, 7);
    assert!(matches!(t.token_type, TokenType::Plus));
    assert_eq!(t.lexeme, "+");
    assert_eq!(t.line, 3);
    assert_eq!(t.character, 7);

    let d = Token::new_default(TokenType::NIL, "nil");
    assert_eq!(d.line, 0);
    assert_eq!(d.character, 0);
}

#[test]
fn get_name_matches_the_listing_names() {
    assert_eq!(Token::new_default(TokenType::LeftParen, "(").get_name(), "LEFT_PAREN");
    assert_eq!(Token::new_default(TokenType::BangEqual, "!=").get_name(), "BANG_EQUAL");
    assert_eq!(Token::new_default(TokenType::Number(Rat::from_u64(1)), "1").get_name(), "NUMBER");
    assert_eq!(
        Token::new_default(TokenType::String("x".to_string()), "\"x\"").get_name(),
        "STRING"
    );
    assert_eq!(Token::new_default(TokenType::WHILE, "while").get_name(), "WHILE");
    assert_eq!(Token::new_default(TokenType::EOF, "").get_name(), "EOF");
}

#[test]
fn get_value_is_null_except_for_literals() {
    assert_eq!(Token::new_default(TokenType::Plus, "+").get_value(), "null");
    assert_eq!(Token::new_default(TokenType::TRUE, "true").get_value(), "null");
    assert_eq!(
        Token::new_default(TokenType::String("abc".to_string()), "\"abc\"").get_value(),
        "abc"
    );
    assert_eq!(
        Token::new_default(TokenType::Number(Rat::from_u64(42)), "42").get_value(),
        "42.0"
    );
    assert_eq!(
        Token::new_default(TokenType::Number(Rat::new(false, 314, 100).unwrap()), "3.14")
            .get_value(),
        "3.14"
    );
}

#[test]
fn tokenized_string_formats_name_lexeme_and_value() {
    let num = Token::new_default(TokenType::Number(Rat::from_u64(42)), "42");
    assert_eq!(num.tokenized_string(), "NUMBER 42 42.0");

    let s = Token::new_default(TokenType::String("abc".to_string()), "\"abc\"");
    assert_eq!(s.tokenized_string(), "STRING \"abc\" abc");

    let eof = Token::new_default(TokenType::EOF, "");
    assert_eq!(eof.tokenized_string(), "EOF  null");

    let unknown = Token::new(TokenType::Unknown, "#", 2, 1);
    assert_eq!(unknown.tokenized_string(), "[line 2] Error: Unexpected character: #");

    let unterminated = Token::new(TokenType::UnterminatedString("ab".to_string()), "\"ab", 4, 1);
    assert_eq!(unterminated.tokenized_string(), "[line 4] Error: Unterminated string.");
}

#[test]
fn is_error_flags_only_the_error_kinds() {
    assert!(Token::new_default(TokenType::Unknown, "#").is_error());
    assert!(Token::new_default(TokenType::UnterminatedString("a".to_string()), "\"a").is_error());
    assert!(!Token::new_default(TokenType::EOF, "").is_error());
    assert!(!Token::new_default(TokenType::Plus, "+").is_error());
}
