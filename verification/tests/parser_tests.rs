use parsemath::ast::Node::{ADD, CARRET, DIVIDE, MULTIPLY, NEGATIVE, NUMBER, SUBTRACT};
use parsemath::parser::{ParseError, Parser};

#[test]
fn test_parser_rejects_empty_input() {
    assert!(matches!(Parser::new(""), Err(ParseError::UnableToParse(_))));
}

#[test]
fn test_parser_add() {
    let mut parser = Parser::new("1+2").unwrap();
    let expected = ADD(
        Box::new(NUMBER(String::from("1"))),
        Box::new(NUMBER(String::from("2"))),
    );
    assert_eq!(parser.parse().unwrap(), expected)
}

#[test]
fn test_parser_sub() {
    let mut parser = Parser::new("1-2").unwrap();
    let expected = SUBTRACT(
        Box::new(NUMBER(String::from("1"))),
        Box::new(NUMBER(String::from("2"))),
    );
    assert_eq!(parser.parse().unwrap(), expected)
}

#[test]
fn test_parser_mul() {
    let mut parser = Parser::new("1*2").unwrap();
    let expected = MULTIPLY(
        Box::new(NUMBER(String::from("1"))),
        Box::new(NUMBER(String::from("2"))),
    );
    assert_eq!(parser.parse().unwrap(), expected)
}

#[test]
fn test_parser_div() {
    let mut parser = Parser::new("1/2").unwrap();
    let expected = DIVIDE(
        Box::new(NUMBER(String::from("1"))),
        Box::new(NUMBER(String::from("2"))),
    );
    assert_eq!(parser.parse().unwrap(), expected)
}

#[test]
fn test_parser_caret() {
    let mut parser = Parser::new("1^2").unwrap();
    let expected = CARRET(
        Box::new(NUMBER(String::from("1"))),
        Box::new(NUMBER(String::from("2"))),
    );
    assert_eq!(parser.parse().unwrap(), expected)
}

#[test]
fn test_parser_negative() {
    let mut parser = Parser::new("-1").unwrap();
    let expected = NEGATIVE(Box::new(NUMBER(String::from("1"))));
    assert_eq!(parser.parse().unwrap(), expected)
}

#[test]
fn test_parser_precedence_shapes_the_tree() {
    let mut parser = Parser::new("2*3+4").unwrap();
    let expected = ADD(
        Box::new(MULTIPLY(
            Box::new(NUMBER(String::from("2"))),
            Box::new(NUMBER(String::from("3"))),
        )),
        Box::new(NUMBER(String::from("4"))),
    );
    assert_eq!(parser.parse().unwrap(), expected)
}

#[test]
fn test_parser_same_precedence_folds_left() {
    let mut parser = Parser::new("10-2-3").unwrap();
    let expected = SUBTRACT(
        Box::new(SUBTRACT(
            Box::new(NUMBER(String::from("10"))),
            Box::new(NUMBER(String::from("2"))),
        )),
        Box::new(NUMBER(String::from("3"))),
    );
    assert_eq!(parser.parse().unwrap(), expected)
}
