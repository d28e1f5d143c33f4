use parsemath::ast::Node;
use parsemath::parse_expression;
use parsemath::parser::ParseError;

/// Floating-point evaluation of a parsed tree, as an embedding program
/// would do it: a post-order walk applying IEEE-754 arithmetic.
fn eval_node(node: &Node) -> f64 {
    match node {
        Node::NUMBER(text) => text.parse::<f64>().unwrap(),
        Node::ADD(l, r) => eval_node(l) + eval_node(r),
        Node::SUBTRACT(l, r) => eval_node(l) - eval_node(r),
        Node::MULTIPLY(l, r) => eval_node(l) * eval_node(r),
        Node::DIVIDE(l, r) => eval_node(l) / eval_node(r),
        Node::CARRET(l, r) => eval_node(l).powf(eval_node(r)),
        Node::NEGATIVE(e) => -eval_node(e),
    }
}

fn evaluate(expr: &str) -> Result<f64, ParseError> {
    let ast = parse_expression(expr)?;
    Ok(eval_node(&ast))
}

#[test]
fn test_main_evaluate() {
    let result = evaluate("5+5+10").unwrap();
    let expected = 20.0;
    assert_eq!(result, expected)
}

#[test]
fn test_precedence_multiplication_binds_first() {
    assert_eq!(evaluate("2*3+4").unwrap(), 10.0);
}

#[test]
fn test_precedence_addition_binds_last() {
    assert_eq!(evaluate("2+3*4").unwrap(), 14.0);
}

#[test]
fn test_precedence_power_binds_first() {
    assert_eq!(evaluate("2^3+1").unwrap(), 9.0);
}

#[test]
fn test_subtraction_left_associative() {
    assert_eq!(evaluate("10-2-3").unwrap(), 5.0);
}

#[test]
fn test_division_left_associative() {
    assert_eq!(evaluate("8/2/2").unwrap(), 2.0);
}

#[test]
fn test_power_left_associative() {
    assert_eq!(evaluate("2^3^2").unwrap(), 64.0);
}

#[test]
fn test_parentheses_override_precedence() {
    assert_eq!(evaluate("(2+3)*4").unwrap(), 20.0);
}

#[test]
fn test_negation_of_number() {
    assert_eq!(evaluate("-5+10").unwrap(), 5.0);
}

#[test]
fn test_negation_of_group() {
    assert_eq!(evaluate("-(2+3)").unwrap(), -5.0);
}

#[test]
fn test_decimal_literal() {
    assert_eq!(evaluate("34.4").unwrap(), 34.4);
}

#[test]
fn test_mismatched_parenthesis_is_error() {
    assert!(matches!(evaluate("(1+2"), Err(ParseError::InvalidOperator(_))));
}

#[test]
fn test_division_by_zero_is_infinity() {
    assert_eq!(evaluate("5/0").unwrap(), f64::INFINITY);
}

#[test]
fn test_reevaluation_is_identical() {
    let first = evaluate("2*3+(4-5)+2^3/4").unwrap();
    let second = evaluate("2*3+(4-5)+2^3/4").unwrap();
    assert_eq!(first, second);
    assert_eq!(first, 7.0);
}

#[test]
fn test_whitespace_is_insensitive() {
    assert_eq!(evaluate("1 + 2").unwrap(), evaluate("1+2").unwrap());
    assert_eq!(evaluate(" 1\t+ 2 ").unwrap(), 3.0);
}

#[test]
fn test_unexpected_token_is_error() {
    assert!(matches!(evaluate("+"), Err(ParseError::UnableToParse(_))));
}

#[test]
fn test_empty_input_is_error() {
    assert!(matches!(evaluate(""), Err(ParseError::UnableToParse(_))));
}

#[test]
fn test_unscannable_character_is_error() {
    assert!(matches!(evaluate("1&2"), Err(ParseError::InvalidOperator(_))));
}

#[test]
fn test_numeral_before_group_is_error() {
    assert!(matches!(evaluate("2(3)"), Err(ParseError::InvalidOperator(_))));
}

#[test]
fn test_adjacent_groups_multiply() {
    assert_eq!(evaluate("(2)(3)").unwrap(), 6.0);
}

#[test]
fn test_mismatch_message_names_both_tokens() {
    match evaluate("(1+2") {
        Err(ParseError::InvalidOperator(message)) => {
            assert_eq!(message, "Expected RIGHTPAREN, got EOF");
        }
        other => panic!("unexpected result {:?}", other),
    }
}

#[test]
fn test_mismatch_message_shows_numeral_text() {
    match evaluate("((2)3)") {
        Err(ParseError::InvalidOperator(message)) => {
            assert_eq!(message, "Expected RIGHTPAREN, got NUM(3)");
        }
        other => panic!("unexpected result {:?}", other),
    }
}

#[test]
fn test_scan_failure_message() {
    match evaluate("1&2") {
        Err(ParseError::InvalidOperator(message)) => {
            assert_eq!(message, "Invalid character");
        }
        other => panic!("unexpected result {:?}", other),
    }
}

#[test]
fn test_primary_position_message() {
    match evaluate("+") {
        Err(ParseError::UnableToParse(message)) => {
            assert_eq!(message, "Unable to Parse");
        }
        other => panic!("unexpected result {:?}", other),
    }
}
