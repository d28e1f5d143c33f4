use parsemath::token::{OperPrec, Token};

#[test]
fn test_oper_prec_addition_subtraction_addition() {
    let token = Token::ADD.get_oper_prec();
    assert_eq!(token, OperPrec::ADDSUB);
}

#[test]
fn test_oper_prec_addition_subtraction_aubtraction() {
    let token = Token::SUBTRACT.get_oper_prec();
    assert_eq!(token, OperPrec::ADDSUB);
}

#[test]
fn test_oper_prec_multiplication_division_division() {
    let token = Token::DIVIDE.get_oper_prec();
    assert_eq!(token, OperPrec::MULDIV);
}

#[test]
fn test_oper_prec_multiplication_division_multiplication() {
    let token = Token::MULTIPLY.get_oper_prec();
    assert_eq!(token, OperPrec::MULDIV);
}

#[test]
fn test_oper_prec_addition_carrent() {
    let token = Token::CARET.get_oper_prec();
    assert_eq!(token, OperPrec::POWER);
}

#[test]
fn test_oper_prec_default_zero() {
    let token = Token::NUM(String::from("25")).get_oper_prec();
    assert_eq!(token, OperPrec::DEFAULTZERO)
}

#[test]
fn test_oper_prec_addition_subtraction_mult() {
    let add = OperPrec::ADDSUB;
    let mult = OperPrec::MULDIV;
    assert!(mult > add);
}

#[test]
fn test_oper_prec_addition_mult_power() {
    let mult = OperPrec::MULDIV;
    let power = OperPrec::POWER;
    assert!(power > mult);
}

#[test]
fn test_same_token_distinguishes_numerals() {
    assert!(Token::NUM(String::from("3")).same_token(&Token::NUM(String::from("3"))));
    assert!(!Token::NUM(String::from("3")).same_token(&Token::NUM(String::from("4"))));
    assert!(!Token::NUM(String::from("3")).same_token(&Token::RIGHTPAREN));
    assert!(Token::RIGHTPAREN.same_token(&Token::RIGHTPAREN));
}
