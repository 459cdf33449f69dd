use lox_expr::ast::expr::Expr;
use lox_expr::ast::printer::AstPrinter;
use lox_expr::lexer::token::Token;
use lox_expr::lexer::types::TokenType;
use lox_expr::numeric::Rat;

#[test]
fn test_print() {
    let testcases = vec![
        (
            Expr::new_binary_expr(
                Expr::new_number_literal(Rat::from_u64(12)),
                Token::new_default(TokenType::Plus, "+"),
                Expr::new_number_literal(Rat::from_u64(34)),
            ),
            "(+ 12 34)",
        ),
        (
            Expr::new_binary_expr(
                Expr::new_number_literal(Rat::from_u64(12)),
                Token::new_default(TokenType::Plus, "+"),
                Expr::new_grouping_expr(Expr::new_number_literal(Rat::from_u64(34))),
            ),
            "(+ 12 (group 34))",
        ),
        (
            Expr::new_binary_expr(
                Expr::new_unary_expr(
                    Token::new_default(TokenType::Minus, "-"),
                    Expr::new_number_literal(Rat::from_u64(123)),
                ),
                Token::new_default(TokenType::Star, "*"),
                Expr::new_grouping_expr(
                    Expr::new_number_literal(Rat::new(false, 4567, 100).unwrap()),
                ),
            ),
            "(* (- 123) (group 45.67))",
        ),
    ];

    for (input, expected) in testcases {
        println!("Testing: {:?}", input);
        assert_eq!(AstPrinter::print(input), expected);
    }
}

#[test]
fn print_string_literal_without_quotes() {
    let tree = Expr::new_string_literal("hello");
    assert_eq!(AstPrinter::print(tree), "hello");
}

#[test]
fn print_keyword_literal_placeholder() {
    // Keyword literals have no printed form of their own.
    let tree = Expr::Literal(Token::new_default(TokenType::TRUE, "true"));
    assert_eq!(AstPrinter::print(tree), "not implemented");
}
