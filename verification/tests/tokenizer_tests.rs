use parsemath::token::Token;
use parsemath::tokenizer::Tokenizer;

#[test]
fn test_number_positive_integer() {
    let mut tokenizer = Tokenizer::new("34");
    let num = match tokenizer.next() {
        Some(value) => match value {
            Token::NUM(text) => text.parse::<f64>().unwrap(),
            _ => 0.0,
        },
        None => -32.0,
    };
    assert_eq!(num, 34.0)
}

#[test]
fn test_number_decimal() {
    let mut tokenizer = Tokenizer::new("34.4");
    let num = match tokenizer.next() {
        Some(value) => match value {
            Token::NUM(text) => text.parse::<f64>().unwrap(),
            _ => 0.0,
        },
        None => -60.0,
    };
    assert_eq!(num, 34.4)
}

#[test]
fn test_token_divide() {
    let mut tokenizer = Tokenizer::new("/");
    let token = match tokenizer.next() {
        Some(token) => token,
        None => Token::EOF,
    };
    assert_eq!(Token::DIVIDE, token);
}

#[test]
fn test_token_multiply() {
    let mut tokenizer = Tokenizer::new("*");
    let token = match tokenizer.next() {
        Some(token) => token,
        None => Token::EOF,
    };
    assert_eq!(Token::MULTIPLY, token);
}

#[test]
fn test_token_add() {
    let mut tokenizer = Tokenizer::new("+");
    let token = match tokenizer.next() {
        Some(token) => token,
        None => Token::EOF,
    };
    assert_eq!(Token::ADD, token);
}

#[test]
fn test_token_subtract() {
    let mut tokenizer = Tokenizer::new("-");
    let token = match tokenizer.next() {
        Some(token) => token,
        None => Token::EOF,
    };
    assert_eq!(Token::SUBTRACT, token);
}

#[test]
fn test_token_caret() {
    let mut tokenizer = Tokenizer::new("^");
    let token = match tokenizer.next() {
        Some(token) => token,
        None => Token::EOF,
    };
    assert_eq!(Token::CARET, token);
}

#[test]
fn test_token_rparent() {
    let mut tokenizer = Tokenizer::new(")");
    let token = match tokenizer.next() {
        Some(token) => token,
        None => Token::EOF,
    };
    assert_eq!(Token::RIGHTPAREN, token);
}

#[test]
fn test_token_lparent() {
    let mut tokenizer = Tokenizer::new("(");
    let token = match tokenizer.next() {
        Some(token) => token,
        None => Token::EOF,
    };
    assert_eq!(Token::LEFTPAREN, token);
}

#[test]
fn test_token_eof() {
    let mut tokenizer = Tokenizer::new("");
    let token = match tokenizer.next() {
        Some(token) => token,
        None => Token::EOF,
    };
    assert_eq!(Token::EOF, token);
}

#[test]
fn test_numeral_keeps_its_exact_text() {
    let mut tokenizer = Tokenizer::new("34.4+1");
    assert_eq!(tokenizer.next(), Some(Token::NUM(String::from("34.4"))));
    assert_eq!(tokenizer.next(), Some(Token::ADD));
    assert_eq!(tokenizer.next(), Some(Token::NUM(String::from("1"))));
    assert_eq!(tokenizer.next(), Some(Token::EOF));
}

#[test]
fn test_numeral_before_parenthesis_fails_scan() {
    let mut tokenizer = Tokenizer::new("2(3)");
    assert_eq!(tokenizer.next(), None);
}

#[test]
fn test_unknown_character_fails_scan() {
    let mut tokenizer = Tokenizer::new("a");
    assert_eq!(tokenizer.next(), None);
}
