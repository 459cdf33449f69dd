use lox_expr::ast::syntax_tree::SyntaxTree;
use lox_expr::lexer::lexer::Lexer;
use lox_expr::lexer::token::Token;
use lox_expr::lexer::types::TokenType;

#[test]
fn test_expect() {
    let tokens = vec![
        Token::new_default(TokenType::LeftParen, "("),
        Token::new_default(TokenType::RightParen, ")"),
        Token::new_default(TokenType::NIL, "nil"),
        Token::new_default(TokenType::AND, "and"),
    ];

    let mut syntax_tree = SyntaxTree::new(tokens);

    assert!(syntax_tree.expect(&[TokenType::LeftParen]).is_ok());
    assert!(syntax_tree.expect(&[TokenType::NIL]).is_err());
    assert!(syntax_tree.expect(&[TokenType::NIL]).is_ok());
    assert!(syntax_tree.expect(&[TokenType::AND]).is_ok());
}

#[test]
fn test_print_valid_expr() {
    let test_cases = vec![
        ("Simple addition", "12 + 34", "(+ 12 34)"),
        ("Simple subtraction", "12 - 34", "(- 12 34)"),
        ("Simple multiplication", "12 * 34", "(* 12 34)"),
        ("Simple division", "12 / 34", "(/ 12 34)"),
        ("Simple grouping", "(12 + 34)", "(group (+ 12 34))"),
        ("Simple grouping with multiple operators", "(12 + 34) * 56", "(* (group (+ 12 34)) 56)"),
        ("Precedence: Grouping", "12 + (34 * 56)", "(+ 12 (group (* 34 56)))"),
        ("Precedence: Primary > Unary", "-12 + 34", "(+ (- 12) 34)"),
        ("Precedence: Unary > Factor", "-12 * 34", "(* (- 12) 34)"),
        ("Precedence: Factor > Term", "-12 * 34 / 56", "(/ (* (- 12) 34) 56)"),
        ("Precedence: Term > Comparison", "-12 * 34 / 56 > 78", "(> (/ (* (- 12) 34) 56) 78)"),
        (
            "Precedence: Comparison > Equality",
            "-12 * 34 / 56 > 78 == 90",
            "(== (> (/ (* (- 12) 34) 56) 78) 90)",
        ),
        ("Left Associativity: Equality", "12 == 34 == 56", "(== (== 12 34) 56)"),
        ("Left Associativity: Comparison", "12 > 34 > 56", "(> (> 12 34) 56)"),
        ("Left Associativity: Term", "12 * 34 * 56", "(* (* 12 34) 56)"),
        ("Left Associativity: Factor", "12 / 34 / 56", "(/ (/ 12 34) 56)"),
        ("Right Associativity: Unary", "!-12", "(! (- 12))"),
    ];

    for (name, input, expected) in test_cases {
        let tokens = Lexer::new(input).get_tokens();
        let mut syntax_tree = SyntaxTree::new(tokens);
        assert_eq!(syntax_tree.print(), expected, "{}", name);
    }
}

#[test]
fn parse_error_on_trailing_operator() {
    let tokens = Lexer::new("12 +").get_tokens();
    let mut parser = SyntaxTree::new(tokens);
    let err = parser.expression().err().unwrap();
    assert_eq!(err.message, "Unexpected type of token, expected a literal but got EOF");
}

#[test]
fn parse_error_on_missing_close_paren() {
    let tokens = Lexer::new("(1").get_tokens();
    let mut parser = SyntaxTree::new(tokens);
    let err = parser.expression().err().unwrap();
    assert_eq!(err.message, "Expected one of types RIGHT_PAREN, but got EOF");
}

#[test]
fn parse_error_on_empty_input() {
    let tokens = Lexer::new("").get_tokens();
    let mut parser = SyntaxTree::new(tokens);
    let err = parser.expression().err().unwrap();
    assert_eq!(err.message, "Unexpected type of token, expected a literal but got EOF");
}

#[test]
fn parse_error_on_operator_in_primary_position() {
    let tokens = Lexer::new("* 3").get_tokens();
    let mut parser = SyntaxTree::new(tokens);
    let err = parser.expression().err().unwrap();
    assert_eq!(err.message, "Unexpected type of token, expected a literal but got STAR");
    assert_eq!(err.line, 1);
}

#[test]
fn parse_error_on_error_token() {
    // An unterminated string reaches the parser as an error-bearing
    // token and surfaces as a parse error.
    let tokens = Lexer::new("\"abc").get_tokens();
    let mut parser = SyntaxTree::new(tokens);
    assert!(parser.expression().is_err());
}

#[test]
fn parse_never_panics_on_scanner_output() {
    // Scanner output always parses to a tree or to an error.
    for input in ["", "12 + ", ")(", "((((", "1 + + 2", "\"open", "@#$", "nil nil"] {
        let tokens = Lexer::new(input).get_tokens();
        let mut parser = SyntaxTree::new(tokens);
        let _ = parser.expression();
    }
}

#[test]
fn number_literal_round_trips_through_print_and_reparse() {
    // A number-literal tree printed, rescanned, and reparsed comes back
    // unchanged.
    let tree = lox_expr::ast::expr::Expr::new_number_literal(
        lox_expr::numeric::Rat::new(false, 4567, 100).unwrap(),
    );
    let printed = lox_expr::ast::printer::AstPrinter::print(tree);
    assert_eq!(printed, "45.67");
    let tokens = Lexer::new(&printed).get_tokens();
    let mut parser = SyntaxTree::new(tokens);
    let reparsed = parser.expression().unwrap();
    assert_eq!(lox_expr::ast::printer::AstPrinter::print(reparsed), "45.67");
}
