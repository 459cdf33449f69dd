use lox_expr::ast::interpreter::Interpreter;
use lox_expr::ast::interpreter::Value;
use lox_expr::ast::syntax_tree::SyntaxTree;
use lox_expr::lexer::lexer::Lexer;
use lox_expr::numeric::Rat;

fn eval(input: &str) -> Result<Value, lox_expr::ast::interpreter::RuntimeError> {
    let tokens = Lexer::new(input).get_tokens();
    let mut parser = SyntaxTree::new(tokens);
    let expr = parser.expression().unwrap();
    let interpreter = Interpreter {};
    interpreter.evaluate(&expr)
}

#[test]
fn test_interpreter() {
    let test_cases: Vec<(&str, &str, Value, bool)> = vec![
        ("Addition", "12 + 34", Value::Number(Rat::from_u64(46)), false),
        ("Comparison", "12 > 34", Value::Boolean(false), false),
        ("Nested expressions", "1 + (2 - 3) * 4", Value::Number(Rat::new(true, 3, 1).unwrap()), false),
        (
            "String concatenation",
            "\"Hello\" + \" \" + \"World\"",
            Value::String("Hello World".to_string()),
            false,
        ),
        ("Invalid operation", "12 + \"Hello\"", Value::Nil, true),
        ("Invalid boolean arithmetic", "true + false", Value::Nil, true),
        ("Invalid boolean operation", "(1 == 2) + 3", Value::Nil, true),
    ];

    for (description, input, expected, should_err) in test_cases {
        let result = eval(input);
        match (result, should_err) {
            (Ok(val), false) => assert_eq!(val, expected),
            (Err(_), true) => {},
            (res, _) => panic!(
                "Test failed: {}\nExpected: {:?}\nGot: {:?}",
                description, expected, res
            ),
        }
    }
}

#[test]
fn evaluate_renders_numbers_without_trailing_zeros() {
    assert_eq!(eval("1 + (2 - 3) * 4").unwrap().to_display_string(), "-3");
    assert_eq!(eval("7 / 2").unwrap().to_display_string(), "3.5");
    assert_eq!(eval("1.25 + 1.25").unwrap().to_display_string(), "2.5");
    assert_eq!(eval("2.5 * 2").unwrap().to_display_string(), "5");
}

#[test]
fn evaluate_renders_other_values() {
    assert_eq!(eval("\"Hello\" + \" \" + \"World\"").unwrap().to_display_string(), "Hello World");
    assert_eq!(eval("1 == 2").unwrap().to_display_string(), "false");
    assert_eq!(eval("nil").unwrap().to_display_string(), "nil");
    assert_eq!(eval("!false").unwrap().to_display_string(), "true");
}

#[test]
fn division_is_exact_on_rationals() {
    // 1/3 has no finite decimal form; the rendering is cut off after
    // the long-division digits.
    let shown = eval("1 / 3").unwrap().to_display_string();
    let expected = format!("0.{}", "3".repeat(64));
    assert_eq!(shown, expected);
}

#[test]
fn division_by_zero_is_an_error() {
    let err = eval("1 / 0").err().unwrap();
    assert_eq!(err.message, "Division by zero");
}

#[test]
fn overflowing_arithmetic_is_an_error() {
    let err = eval("18446744073709551615 + 1").err().unwrap();
    assert_eq!(err.message, "Numeric result out of range");
}

#[test]
fn string_repetition_floors_the_count() {
    assert_eq!(eval("\"ab\" * 3").unwrap().to_display_string(), "ababab");
    assert_eq!(eval("\"ab\" * 2.9").unwrap().to_display_string(), "abab");
    assert_eq!(eval("\"ab\" * (0 - 1)").unwrap().to_display_string(), "");
}

#[test]
fn string_comparison_is_lexicographic() {
    assert_eq!(eval("\"apple\" < \"banana\"").unwrap().to_display_string(), "true");
    assert_eq!(eval("\"apple\" < \"app\"").unwrap().to_display_string(), "false");
    assert_eq!(eval("\"a\" <= \"a\"").unwrap().to_display_string(), "true");
    assert_eq!(eval("\"b\" > \"a\"").unwrap().to_display_string(), "true");
}

#[test]
fn mixed_comparison_is_an_error() {
    assert!(eval("1 < \"one\"").is_err());
    assert!(eval("\"one\" >= 1").is_err());
}

#[test]
fn equality_across_variants_is_false_not_an_error() {
    assert_eq!(eval("1 == \"1\"").unwrap().to_display_string(), "false");
    assert_eq!(eval("nil == false").unwrap().to_display_string(), "false");
    assert_eq!(eval("1 != \"1\"").unwrap().to_display_string(), "true");
}

#[test]
fn numbers_compare_by_value() {
    assert_eq!(eval("0.5 == 0.50").unwrap().to_display_string(), "true");
    assert_eq!(eval("1 / 2 == 0.5").unwrap().to_display_string(), "true");
}

#[test]
fn unary_operators_are_strict() {
    assert_eq!(eval("-5").unwrap().to_display_string(), "-5");
    assert_eq!(eval("!true").unwrap().to_display_string(), "false");
    let err = eval("!5").err().unwrap();
    assert_eq!(err.message, "Expected boolean value, got Number(5)");
    assert!(eval("-nil").is_err());
}

#[test]
fn identifier_in_literal_position_is_a_runtime_error() {
    let err = eval("x + 1").err().unwrap();
    assert_eq!(err.message, "Variables are not supported: x");
}

#[test]
fn type_mismatch_messages_name_both_operands() {
    let err = eval("12 + \"Hello\"").err().unwrap();
    assert_eq!(
        err.message,
        "Cannot add values of different types: Number(12) and String(\"Hello\")"
    );
}
