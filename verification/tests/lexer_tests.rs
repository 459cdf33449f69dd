use lox_expr::lexer::lexer::Lexer;
use lox_expr::lexer::types::TokenType;

#[test]
fn tokenizes_a_simple_expression() {
    let tokens = Lexer::new("12 + 34").get_tokens();
    assert_eq!(tokens.len(), 4);
    assert!(matches!(tokens[0].token_type, TokenType::Number(_)));
    assert!(matches!(tokens[1].token_type, TokenType::Plus));
    assert!(matches!(tokens[2].token_type, TokenType::Number(_)));
    assert!(matches!(tokens[3].token_type, TokenType::EOF));
    assert_eq!(tokens[0].lexeme, "12");
    assert_eq!(tokens[1].lexeme, "+");
    assert_eq!(tokens[2].lexeme, "34");
    assert_eq!(tokens[3].lexeme, "");
}

#[test]
fn lexemes_are_exact_source_substrings() {
    // Without trivia, the concatenated lexemes are exactly the source.
    let source = "(12.5+x)!=\"ab\"";
    let tokens = Lexer::new(source).get_tokens();
    let rebuilt: String = tokens.iter().map(|t| t.lexeme.as_str()).collect();
    assert_eq!(rebuilt, source);
}

#[test]
fn lexemes_and_gaps_rebuild_the_source() {
    // With trivia, what is skipped is exactly the whitespace and
    // comments between the lexemes.
    let source = "1 + 2 // rest\n 3";
    let tokens = Lexer::new(source).get_tokens();
    let lexeme_total: usize = tokens.iter().map(|t| t.lexeme.len()).sum();
    // lexemes: "1", "+", "2", "3", "" for EOF
    assert_eq!(lexeme_total, 4);
    assert_eq!(tokens.len(), 5);
}

#[test]
fn every_scan_ends_with_exactly_one_eof() {
    for source in ["", "   ", "// only a comment", "1 + 2", "\"open", "@"] {
        let tokens = Lexer::new(source).get_tokens();
        assert!(!tokens.is_empty());
        assert!(matches!(tokens.last().unwrap().token_type, TokenType::EOF));
        let eof_count = tokens
            .iter()
            .filter(|t| matches!(t.token_type, TokenType::EOF))
            .count();
        assert_eq!(eof_count, 1);
    }
}

#[test]
fn unterminated_string_is_an_error_token() {
    let tokens = Lexer::new("\"abc").get_tokens();
    assert!(matches!(tokens[0].token_type, TokenType::UnterminatedString(_)));
    assert!(tokens[0].is_error());
    assert_eq!(tokens[0].tokenized_string(), "[line 1] Error: Unterminated string.");
    if let TokenType::UnterminatedString(partial) = &tokens[0].token_type {
        assert_eq!(partial, "abc");
    }
}

#[test]
fn unterminated_string_stops_before_the_newline() {
    let tokens = Lexer::new("\"ab\ncd").get_tokens();
    assert!(matches!(tokens[0].token_type, TokenType::UnterminatedString(_)));
    assert_eq!(tokens[0].lexeme, "\"ab");
    // The newline is not consumed; scanning continues on line 2.
    assert!(matches!(tokens[1].token_type, TokenType::Identifier(_)));
    assert_eq!(tokens[1].line, 2);
}

#[test]
fn unknown_character_is_an_error_token() {
    let tokens = Lexer::new("@").get_tokens();
    assert!(matches!(tokens[0].token_type, TokenType::Unknown));
    assert!(tokens[0].is_error());
    assert_eq!(tokens[0].tokenized_string(), "[line 1] Error: Unexpected character: @");
}

#[test]
fn comments_run_to_end_of_line() {
    let tokens = Lexer::new("1 // two three\n2").get_tokens();
    assert_eq!(tokens.len(), 3);
    assert_eq!(tokens[0].lexeme, "1");
    assert_eq!(tokens[1].lexeme, "2");
    assert_eq!(tokens[1].line, 2);
}

#[test]
fn slash_alone_is_division() {
    let tokens = Lexer::new("1 / 2").get_tokens();
    assert!(matches!(tokens[1].token_type, TokenType::Slash));
}

#[test]
fn trailing_dot_is_not_part_of_a_number() {
    let tokens = Lexer::new("12.").get_tokens();
    assert!(matches!(tokens[0].token_type, TokenType::Number(_)));
    assert_eq!(tokens[0].lexeme, "12");
    assert!(matches!(tokens[1].token_type, TokenType::Dot));
    assert!(matches!(tokens[2].token_type, TokenType::EOF));
}

#[test]
fn number_values_are_exact() {
    let tokens = Lexer::new("42 3.14 0.50").get_tokens();
    assert_eq!(tokens[0].get_value(), "42.0");
    assert_eq!(tokens[1].get_value(), "3.14");
    assert_eq!(tokens[0].lexeme, "42");
    assert_eq!(tokens[1].lexeme, "3.14");
    assert_eq!(tokens[2].lexeme, "0.50");
}

#[test]
fn string_literal_drops_the_quotes_in_its_value() {
    let tokens = Lexer::new("\"hi there\"").get_tokens();
    assert_eq!(tokens[0].lexeme, "\"hi there\"");
    if let TokenType::String(contents) = &tokens[0].token_type {
        assert_eq!(contents, "hi there");
    } else {
        panic!("expected a string token");
    }
    assert_eq!(tokens[0].get_value(), "hi there");
}

#[test]
fn keywords_are_recognized() {
    assert!(matches!(TokenType::check_keyword("and"), Some(TokenType::AND)));
    assert!(matches!(TokenType::check_keyword("while"), Some(TokenType::WHILE)));
    assert!(matches!(TokenType::check_keyword("foo"), None));
    assert!(matches!(TokenType::check_keyword("ands"), None));
    let tokens = Lexer::new("nil true falsey").get_tokens();
    assert!(matches!(tokens[0].token_type, TokenType::NIL));
    assert!(matches!(tokens[1].token_type, TokenType::TRUE));
    assert!(matches!(tokens[2].token_type, TokenType::Identifier(_)));
}

#[test]
fn two_character_operators_are_greedy() {
    let tokens = Lexer::new("== != <= >= < > = !").get_tokens();
    assert!(matches!(tokens[0].token_type, TokenType::EqualEqual));
    assert!(matches!(tokens[1].token_type, TokenType::BangEqual));
    assert!(matches!(tokens[2].token_type, TokenType::LessEqual));
    assert!(matches!(tokens[3].token_type, TokenType::GreaterEqual));
    assert!(matches!(tokens[4].token_type, TokenType::Less));
    assert!(matches!(tokens[5].token_type, TokenType::Greater));
    assert!(matches!(tokens[6].token_type, TokenType::Equal));
    assert!(matches!(tokens[7].token_type, TokenType::Bang));
}

#[test]
fn positions_are_taken_at_the_token_start() {
    let tokens = Lexer::new("ab\n cd").get_tokens();
    assert_eq!(tokens[0].line, 1);
    assert_eq!(tokens[0].character, 1);
    assert_eq!(tokens[1].line, 2);
    assert_eq!(tokens[1].character, 2);
}
