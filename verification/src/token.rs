//! Lexical tokens and operator precedence levels.

use vstd::prelude::*;
use vstd::string::StringExecFns;

verus! {

/// One lexical unit of an arithmetic expression: an operator, a parenthesis,
/// a numeral, or the end-of-stream marker.  A numeral carries exactly the
/// characters the scanner consumed for it; the embedding program turns that
/// text into a machine number.
#[allow(non_camel_case_types)]
#[derive(Debug, PartialEq, Clone)]
pub enum Token {
    ADD,
    SUBTRACT,
    MULTIPLY,
    DIVIDE,
    CARET,
    LEFTPAREN,
    RIGHTPAREN,
    NUM(String),
    EOF,
}

/// The mathematical value of a `Token`: the same tag, with the numeral text
/// abstracted to its character sequence.
pub enum TokenView {
    Add,
    Subtract,
    Multiply,
    Divide,
    Caret,
    LeftParen,
    RightParen,
    Num(Seq<char>),
    Eof,
}

impl View for Token {
    type V = TokenView;

    open spec fn view(&self) -> TokenView {
        match self {
            Token::ADD => TokenView::Add,
            Token::SUBTRACT => TokenView::Subtract,
            Token::MULTIPLY => TokenView::Multiply,
            Token::DIVIDE => TokenView::Divide,
            Token::CARET => TokenView::Caret,
            Token::LEFTPAREN => TokenView::LeftParen,
            Token::RIGHTPAREN => TokenView::RightParen,
            Token::NUM(s) => TokenView::Num(s@),
            Token::EOF => TokenView::Eof,
        }
    }
}

/// The name a token is reported under in error messages.
pub open spec fn spec_describe(t: TokenView) -> Seq<char> {
    match t {
        TokenView::Add => "ADD"@,
        TokenView::Subtract => "SUBTRACT"@,
        TokenView::Multiply => "MULTIPLY"@,
        TokenView::Divide => "DIVIDE"@,
        TokenView::Caret => "CARET"@,
        TokenView::LeftParen => "LEFTPAREN"@,
        TokenView::RightParen => "RIGHTPAREN"@,
        TokenView::Num(text) => "NUM("@ + text + ")"@,
        TokenView::Eof => "EOF"@,
    }
}

/// The binding strength of an operator, from the neutral context used at the
/// start of a parse (and inside parentheses) up to unary negation.  The order
/// is total: `DEFAULTZERO < ADDSUB < MULDIV < POWER < NEGATIVE`.
#[allow(non_camel_case_types)]
#[derive(Debug, PartialEq, Eq, Structural, Clone, Copy)]
pub enum OperPrec {
    DEFAULTZERO,
    ADDSUB,
    MULDIV,
    POWER,
    NEGATIVE,
}

/// The numeric rank behind the ordering of `OperPrec`.
pub open spec fn prec_rank(p: OperPrec) -> int {
    match p {
        OperPrec::DEFAULTZERO => 0,
        OperPrec::ADDSUB => 1,
        OperPrec::MULDIV => 2,
        OperPrec::POWER => 3,
        OperPrec::NEGATIVE => 4,
    }
}

impl OperPrec {
    fn rank(&self) -> (r: u8)
        ensures
            r as int == prec_rank(*self),
    {
        match self {
            OperPrec::DEFAULTZERO => 0,
            OperPrec::ADDSUB => 1,
            OperPrec::MULDIV => 2,
            OperPrec::POWER => 3,
            OperPrec::NEGATIVE => 4,
        }
    }
}

impl PartialOrd for OperPrec {
    fn partial_cmp(&self, other: &OperPrec) -> (r: Option<core::cmp::Ordering>) {
        let a = self.rank();
        let b = other.rank();
        if a < b {
            Some(core::cmp::Ordering::Less)
        } else if a == b {
            Some(core::cmp::Ordering::Equal)
        } else {
            Some(core::cmp::Ordering::Greater)
        }
    }
}

impl vstd::std_specs::cmp::PartialOrdSpecImpl for OperPrec {
    open spec fn obeys_partial_cmp_spec() -> bool {
        true
    }

    open spec fn partial_cmp_spec(&self, other: &OperPrec) -> Option<core::cmp::Ordering> {
        if prec_rank(*self) < prec_rank(*other) {
            Some(core::cmp::Ordering::Less)
        } else if prec_rank(*self) > prec_rank(*other) {
            Some(core::cmp::Ordering::Greater)
        } else {
            Some(core::cmp::Ordering::Equal)
        }
    }
}

/// The precedence class a token binds at: `+ -` at `ADDSUB`, `* /` at
/// `MULDIV`, `^` at `POWER`, and everything that is no binary operator at the
/// neutral `DEFAULTZERO`.
pub open spec fn spec_oper_prec(t: TokenView) -> OperPrec {
    match t {
        TokenView::Add => OperPrec::ADDSUB,
        TokenView::Subtract => OperPrec::ADDSUB,
        TokenView::Multiply => OperPrec::MULDIV,
        TokenView::Divide => OperPrec::MULDIV,
        TokenView::Caret => OperPrec::POWER,
        _ => OperPrec::DEFAULTZERO,
    }
}

impl Token {
    /// The precedence class at which this token binds as a binary operator.
    pub fn get_oper_prec(&self) -> (p: OperPrec)
        ensures
            p == spec_oper_prec(self@),
    {
        match self {
            Token::ADD | Token::SUBTRACT => OperPrec::ADDSUB,
            Token::MULTIPLY | Token::DIVIDE => OperPrec::MULDIV,
            Token::CARET => OperPrec::POWER,
            _ => OperPrec::DEFAULTZERO,
        }
    }

    /// The token's name, as the parser's error messages report it; a numeral
    /// shows its text.
    pub fn describe(&self) -> (r: String)
        ensures
            r@ == spec_describe(self@),
    {
        match self {
            Token::ADD => "ADD".to_owned(),
            Token::SUBTRACT => "SUBTRACT".to_owned(),
            Token::MULTIPLY => "MULTIPLY".to_owned(),
            Token::DIVIDE => "DIVIDE".to_owned(),
            Token::CARET => "CARET".to_owned(),
            Token::LEFTPAREN => "LEFTPAREN".to_owned(),
            Token::RIGHTPAREN => "RIGHTPAREN".to_owned(),
            Token::NUM(s) => {
                let mut r = "NUM(".to_owned();
                r.append(s.as_str());
                r.append(")");
                r
            },
            Token::EOF => "EOF".to_owned(),
        }
    }

    /// Whether two tokens are the same lexical unit; numerals must carry the
    /// same text.
    pub fn same_token(&self, other: &Token) -> (b: bool)
        ensures
            b == (self@ == other@),
    {
        match (self, other) {
            (Token::ADD, Token::ADD) => true,
            (Token::SUBTRACT, Token::SUBTRACT) => true,
            (Token::MULTIPLY, Token::MULTIPLY) => true,
            (Token::DIVIDE, Token::DIVIDE) => true,
            (Token::CARET, Token::CARET) => true,
            (Token::LEFTPAREN, Token::LEFTPAREN) => true,
            (Token::RIGHTPAREN, Token::RIGHTPAREN) => true,
            (Token::NUM(a), Token::NUM(b)) => *a == *b,
            (Token::EOF, Token::EOF) => true,
            _ => false,
        }
    }
}

} // verus!
