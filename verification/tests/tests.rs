use tree_parser::{parse_expression, tokenize, Expr, ParseError};

/// Evaluates a tree with IEEE-754 double-precision arithmetic. Floating
/// point stays outside the verified library, so the numeric walk lives with
/// the callers: a number leaf holds its digits and is read as an `f64` here.
fn evaluate(expr: &Expr) -> f64 {
    match expr {
        Expr::Number(text) => text.parse::<f64>().unwrap(),
        Expr::BinaryOp { op, left, right } => {
            let l = evaluate(left);
            let r = evaluate(right);
            match op {
                '+' => l + r,
                '-' => l - r,
                '*' => l * r,
                '/' => l / r,
                _ => unreachable!(),
            }
        }
    }
}

fn number(text: &str) -> Expr {
    Expr::Number(text.to_string())
}

fn binary(op: char, left: Expr, right: Expr) -> Expr {
    Expr::BinaryOp {
        op,
        left: Box::new(left),
        right: Box::new(right),
    }
}

#[test]
fn test_simple_addition_ast() {
    let expr = parse_expression("2 + 3").unwrap();
    println!("{}", expr.to_tree_string());
    assert_eq!(expr, binary('+', number("2"), number("3")));
    assert_eq!(expr.to_infix(), "(2 + 3)");
}

#[test]
fn test_operator_precedence_ast() {
    let expr = parse_expression("2 + 3 * 4").unwrap();
    println!("{}", expr.to_tree_string());
    assert_eq!(
        expr,
        binary('+', number("2"), binary('*', number("3"), number("4")))
    );
    assert_eq!(evaluate(&expr), 14.0);
}

#[test]
fn test_with_parentheses_ast() {
    let expr = parse_expression("(2 + 3) * 4").unwrap();
    println!("{}", expr.to_tree_string());
    assert_eq!(
        expr,
        binary('*', binary('+', number("2"), number("3")), number("4"))
    );
    assert_eq!(evaluate(&expr), 20.0);
}

#[test]
fn test_complex_expression_ast() {
    let expr = parse_expression("3 + 5 * (2 - 8) / 4").unwrap();
    println!("{}", expr.to_tree_string());
    assert_eq!(
        expr,
        binary(
            '+',
            number("3"),
            binary(
                '/',
                binary('*', number("5"), binary('-', number("2"), number("8"))),
                number("4")
            )
        )
    );
    let result = evaluate(&expr);
    assert!((result - (-4.5)).abs() < 1e-6);
}

#[test]
fn test_evaluate_numeric() {
    let expr = parse_expression("3 + 5 * (2 - 8) / 4").unwrap();
    let result = evaluate(&expr);
    assert!((result + 4.5).abs() < 1e-6);
}

#[test]
fn test_unexpected_end_error() {
    let err = parse_expression("").unwrap_err();
    assert!(matches!(err, ParseError::UnexpectedEnd));
}

#[test]
fn test_missing_closing_parenthesis_error() {
    let err = parse_expression("(").unwrap_err();
    assert!(matches!(
        err,
        ParseError::UnexpectedEnd | ParseError::MissingClosingParenthesis
    ));

    let err2 = parse_expression("2 + (3 * 4").unwrap_err();
    assert!(matches!(err2, ParseError::MissingClosingParenthesis));
}

#[test]
fn test_unexpected_token_error() {
    let err = parse_expression("2 + x").unwrap_err();
    assert!(matches!(err, ParseError::UnexpectedToken(tok) if tok == "x"));
}

#[test]
fn test_to_infix() {
    let expr = parse_expression("1 + 2 * 3").unwrap();
    assert_eq!(expr.to_infix(), "(1 + (2 * 3))");

    let expr2 = parse_expression("(1 + 2) * 3").unwrap();
    assert_eq!(expr2.to_infix(), "((1 + 2) * 3)");
}

#[test]
fn test_nested_parentheses() {
    let expr = parse_expression("((1 + 2) * (3 + 4)) / 7").unwrap();
    let result = evaluate(&expr);
    assert!((result - 3.0).abs() < 1e-6);
}

#[test]
fn test_multiple_operators_error() {
    let err = parse_expression("2 + + 3").unwrap_err();
    assert!(matches!(err, ParseError::UnexpectedToken(tok) if tok == "+"));
}

#[test]
fn test_invalid_token_error() {
    let err = parse_expression("2 + @").unwrap_err();
    assert!(matches!(err, ParseError::UnexpectedToken(tok) if tok == "@"));
}

#[test]
fn test_division_by_zero() {
    let expr = parse_expression("10 / (5 - 5)").unwrap();
    let result = evaluate(&expr);
    assert!(result.is_infinite() || result.is_nan());
}

#[test]
fn test_long_complex_expression() {
    let expr = parse_expression("1 + 2 - 3 * 4 / 2 + (5 - 6 + (7 * 8))").unwrap();
    let result = evaluate(&expr);
    assert!((result - 52.0).abs() < 1e-6);
}

#[test]
fn test_only_number() {
    let expr = parse_expression("42").unwrap();
    assert_eq!(evaluate(&expr), 42.0);
}

#[test]
fn test_only_number_renders_bare() {
    let expr = parse_expression("42").unwrap();
    assert_eq!(expr, number("42"));
    assert_eq!(expr.to_infix(), "42");
}

#[test]
fn test_left_associativity() {
    let expr = parse_expression("8 - 3 - 2").unwrap();
    assert_eq!(expr, binary('-', binary('-', number("8"), number("3")), number("2")));
    assert_eq!(evaluate(&expr), 3.0);
}

#[test]
fn test_round_trip_via_infix() {
    for input in ["3 + 5 * (2 - 8) / 4", "8 - 3 - 2", "(2 + 3) * 4", "42", "10 / (5 - 5)"] {
        let expr = parse_expression(input).unwrap();
        let reparsed = parse_expression(&expr.to_infix()).unwrap();
        assert_eq!(expr, reparsed);
        let a = evaluate(&expr);
        let b = evaluate(&reparsed);
        assert!(a == b || (a.is_nan() && b.is_nan()));
    }
}

#[test]
fn test_tokenize_symbols_and_numbers() {
    let tokens = tokenize("12 + (345 * 6)").unwrap();
    assert_eq!(tokens, vec!["12", "+", "(", "345", "*", "6", ")"]);
}

#[test]
fn test_tokenize_empty_and_whitespace() {
    assert_eq!(tokenize("").unwrap(), Vec::<String>::new());
    assert_eq!(tokenize(" \t\n ").unwrap(), Vec::<String>::new());
}

#[test]
fn test_tokenize_whitespace_inside_number() {
    // whitespace never ends a pending literal, so the digits join
    let tokens = tokenize("1 2").unwrap();
    assert_eq!(tokens, vec!["12"]);
    let expr = parse_expression("1 2").unwrap();
    assert_eq!(evaluate(&expr), 12.0);
}

#[test]
fn test_trailing_tokens_ignored() {
    // parsing stops after one complete expression
    let expr = parse_expression("2 + 3 ) )").unwrap();
    assert_eq!(expr, binary('+', number("2"), number("3")));
}

#[test]
fn test_tree_diagram() {
    let expr = parse_expression("2 + 3 * 4").unwrap();
    let diagram = expr.to_tree_string();
    let expected = "└── +\n    ├── 2\n    └── *\n        ├── 3\n        └── 4\n";
    assert_eq!(diagram, expected);
}

#[test]
fn test_operator_in_operand_position() {
    let err = parse_expression("* 2").unwrap_err();
    assert!(matches!(err, ParseError::UnexpectedToken(tok) if tok == "*"));
}
