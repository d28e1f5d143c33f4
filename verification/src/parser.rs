//! The parser: precedence-climbing recursive descent over the scanner's
//! token stream, building the syntax tree bottom-up with a single lookahead
//! token and no backtracking.
//!
//! The spec functions in this module are the mathematical description of the
//! parse: each executable method is proved to return exactly what its spec
//! function says, for every input.

use vstd::prelude::*;
use crate::ast::{Node, NodeView};
use crate::token::{prec_rank, spec_describe, spec_oper_prec, OperPrec, Token, TokenView};
use vstd::string::StringExecFns;
use crate::tokenizer::{lemma_scan_bounds, spec_scan, Tokenizer};

verus! {

/// A failed parse: the input could not be scanned or did not follow the
/// grammar.  `UnableToParse` reports a token where a primary expression was
/// expected; `InvalidOperator` reports an unscannable character, a missing
/// closing parenthesis, or a token that cannot bind as an operator.  The
/// payload is a human-readable message.
#[derive(Debug)]
pub enum ParseError {
    UnableToParse(String),
    InvalidOperator(String),
}

/// The parser's mathematical state: the characters being parsed, the
/// scanner's cursor, and the lookahead token.
pub struct PState {
    pub s: Seq<char>,
    pub pos: int,
    pub cur: TokenView,
}

pub open spec fn p_wf(st: PState) -> bool {
    0 <= st.pos <= st.s.len()
}

/// How much input is still to be consumed: the characters past the cursor,
/// plus one for the lookahead unless it is the end marker.  Every consumed
/// token makes this smaller, which is what bounds the recursion.
pub open spec fn p_measure(st: PState) -> int {
    (if 0 <= st.pos <= st.s.len() {
        st.s.len() - st.pos
    } else {
        0
    }) + (if st.cur is Eof {
        0int
    } else {
        1int
    })
}

/// Consuming the lookahead: scan one token and make it the new lookahead.
/// `None` marks a scan failure.
pub open spec fn spec_advance(st: PState) -> Option<PState> {
    let step = spec_scan(st.s, st.pos);
    match step.tok {
        Some(t) => Some(PState { s: st.s, pos: step.next, cur: t }),
        None => None,
    }
}

/// Consuming a lookahead that is not the end marker shrinks the measure.
pub proof fn lemma_advance(st: PState)
    requires
        p_wf(st),
        !(st.cur is Eof),
    ensures
        match spec_advance(st) {
            Some(st1) => p_wf(st1) && st1.s == st.s && p_measure(st1) < p_measure(st),
            None => true,
        },
{
    lemma_scan_bounds(st.s, st.pos);
}

/// How a parsing step ends: with the node it built and the state it left
/// behind, or with one of the two failures of `ParseError`.
pub enum ParseOutcome {
    Parsed(NodeView, PState),
    FailedParse,
    FailedOperator,
}

/// Consume the operator or sign at the lookahead, then parse an expression
/// at precedence `oper_prec` as its operand.
///
/// In every spec function below, a test of the form
/// `p_measure(..) < p_measure(..)` guards a recursive call.  The scanner
/// always advances past a consumed token (`lemma_advance`), so the guard
/// always holds of the states the parser actually reaches; it is what makes
/// the recursion well-founded.
pub open spec fn spec_rhs(st: PState, oper_prec: OperPrec) -> ParseOutcome
    decreases p_measure(st), 1int,
{
    match spec_advance(st) {
        None => ParseOutcome::FailedOperator,
        Some(st1) => if p_measure(st1) < p_measure(st) {
            spec_generate_ast(st1, oper_prec)
        } else {
            ParseOutcome::FailedOperator
        },
    }
}

/// After the body of a parenthesized group, read at `st`: require the
/// closing parenthesis at `st2` and consume it; if another `(` follows
/// directly, the two adjacent groups are multiplied, the right one parsed at
/// `MULDIV` precedence.
pub open spec fn spec_close_paren(st: PState, expr: NodeView, st2: PState) -> ParseOutcome
    decreases p_measure(st), 1int,
{
    if st2.cur is RightParen {
        match spec_advance(st2) {
            None => ParseOutcome::FailedOperator,
            Some(st3) => if st3.cur is LeftParen {
                if p_measure(st3) < p_measure(st) {
                    match spec_generate_ast(st3, OperPrec::MULDIV) {
                        ParseOutcome::Parsed(right, st4) => ParseOutcome::Parsed(
                            NodeView::Multiply(Box::new(expr), Box::new(right)),
                            st4,
                        ),
                        fail => fail,
                    }
                } else {
                    ParseOutcome::FailedOperator
                }
            } else {
                ParseOutcome::Parsed(expr, st3)
            },
        }
    } else {
        ParseOutcome::FailedOperator
    }
}

/// One primary expression: a negation, a numeral, or a parenthesized group;
/// any other lookahead is a failed parse.
pub open spec fn spec_parse_number(st: PState) -> ParseOutcome
    decreases p_measure(st), 2int,
{
    match st.cur {
        TokenView::Subtract => match spec_rhs(st, OperPrec::NEGATIVE) {
            ParseOutcome::Parsed(expr, st1) => ParseOutcome::Parsed(
                NodeView::Negative(Box::new(expr)),
                st1,
            ),
            fail => fail,
        },
        TokenView::Num(text) => match spec_advance(st) {
            None => ParseOutcome::FailedOperator,
            Some(st1) => ParseOutcome::Parsed(NodeView::Number(text), st1),
        },
        TokenView::LeftParen => match spec_rhs(st, OperPrec::DEFAULTZERO) {
            ParseOutcome::Parsed(expr, st2) => spec_close_paren(st, expr, st2),
            fail => fail,
        },
        _ => ParseOutcome::FailedParse,
    }
}

/// One binary operator applied to `left`: consume the operator at the
/// lookahead and parse its right-hand operand at the operator's own
/// precedence class; a lookahead that is no operator is an invalid-operator
/// failure.
pub open spec fn spec_convert(st: PState, left: NodeView) -> ParseOutcome
    decreases p_measure(st), 2int,
{
    match st.cur {
        TokenView::Add => match spec_rhs(st, OperPrec::ADDSUB) {
            ParseOutcome::Parsed(right, st1) => ParseOutcome::Parsed(
                NodeView::Add(Box::new(left), Box::new(right)),
                st1,
            ),
            fail => fail,
        },
        TokenView::Subtract => match spec_rhs(st, OperPrec::ADDSUB) {
            ParseOutcome::Parsed(right, st1) => ParseOutcome::Parsed(
                NodeView::Subtract(Box::new(left), Box::new(right)),
                st1,
            ),
            fail => fail,
        },
        TokenView::Multiply => match spec_rhs(st, OperPrec::MULDIV) {
            ParseOutcome::Parsed(right, st1) => ParseOutcome::Parsed(
                NodeView::Multiply(Box::new(left), Box::new(right)),
                st1,
            ),
            fail => fail,
        },
        TokenView::Divide => match spec_rhs(st, OperPrec::MULDIV) {
            ParseOutcome::Parsed(right, st1) => ParseOutcome::Parsed(
                NodeView::Divide(Box::new(left), Box::new(right)),
                st1,
            ),
            fail => fail,
        },
        TokenView::Caret => match spec_rhs(st, OperPrec::POWER) {
            ParseOutcome::Parsed(right, st1) => ParseOutcome::Parsed(
                NodeView::Carret(Box::new(left), Box::new(right)),
                st1,
            ),
            fail => fail,
        },
        _ => ParseOutcome::FailedOperator,
    }
}

/// The climbing loop: while the lookahead binds more strongly than
/// `oper_prec` and is not the end marker, bind it and fold the right-hand
/// side into `left`.  Operators of one precedence class therefore associate
/// to the left, the exponent operator included.
pub open spec fn spec_climb(st: PState, left: NodeView, oper_prec: OperPrec) -> ParseOutcome
    decreases p_measure(st), 3int,
{
    if prec_rank(oper_prec) < prec_rank(spec_oper_prec(st.cur)) {
        if st.cur is Eof {
            ParseOutcome::Parsed(left, st)
        } else {
            match spec_convert(st, left) {
                ParseOutcome::Parsed(next_left, st1) => if p_measure(st1) < p_measure(st) {
                    spec_climb(st1, next_left, oper_prec)
                } else {
                    ParseOutcome::FailedParse
                },
                fail => fail,
            }
        }
    } else {
        ParseOutcome::Parsed(left, st)
    }
}

/// An expression at precedence `oper_prec`: one primary, then the climbing
/// loop.
pub open spec fn spec_generate_ast(st: PState, oper_prec: OperPrec) -> ParseOutcome
    decreases p_measure(st), 3int,
{
    match spec_parse_number(st) {
        ParseOutcome::Parsed(left, st1) => if p_measure(st1) < p_measure(st) {
            spec_climb(st1, left, oper_prec)
        } else {
            ParseOutcome::FailedParse
        },
        fail => fail,
    }
}

/// Whether the executable result `r`, leaving the parser in state `post`,
/// is what the spec outcome `out` calls for: the same tree on success, and
/// the matching error variant on failure.
pub open spec fn outcome_matches(r: Result<Node, ParseError>, post: PState, out: ParseOutcome) -> bool {
    match out {
        ParseOutcome::Parsed(n, st) => r is Ok && r->Ok_0@ == n && post == st,
        ParseOutcome::FailedParse => r is Err && r->Err_0 is UnableToParse,
        ParseOutcome::FailedOperator => r is Err && r->Err_0 is InvalidOperator,
    }
}

/// The message a parenthesis mismatch reports: both the expected and the
/// actual token.
pub open spec fn mismatch_message(expected: TokenView, actual: TokenView) -> Seq<char> {
    "Expected "@ + spec_describe(expected) + ", got "@ + spec_describe(actual)
}

/// The message a token that cannot bind as an operator is reported with.
pub open spec fn invalid_operator_message(t: TokenView) -> Seq<char> {
    "Please enter valid operator "@ + spec_describe(t)
}

/// Consumes tokens from a `Tokenizer`, always holding exactly one lookahead
/// token, and builds the syntax tree by precedence climbing.
pub struct Parser<'a> {
    tokenizer: Tokenizer<'a>,
    current_token: Token,
}

impl<'a> Parser<'a> {
    /// The parser's mathematical state.
    pub closed spec fn state(&self) -> PState {
        PState {
            s: self.tokenizer.text(),
            pos: self.tokenizer.position(),
            cur: self.current_token@,
        }
    }

    pub closed spec fn wf(&self) -> bool {
        self.tokenizer.wf()
    }

    /// A parser over `expr`, primed with the first lookahead token; fails
    /// exactly when the input is empty (its first token is already the end
    /// marker) or the first token does not scan.
    pub fn new(expr: &'a str) -> (r: Result<Parser<'a>, ParseError>)
        ensures
            match spec_scan(expr@, 0).tok {
                Some(t) => if t is Eof {
                    r is Err && (r->Err_0 matches ParseError::UnableToParse(m) && m@
                        == "Unable to Parse"@)
                } else {
                    r is Ok && r->Ok_0.wf() && r->Ok_0.state() == (PState {
                        s: expr@,
                        pos: spec_scan(expr@, 0).next,
                        cur: t,
                    })
                },
                None => r is Err && (r->Err_0 matches ParseError::InvalidOperator(m) && m@
                    == "Invalid character"@),
            },
    {
        let mut lexer = Tokenizer::new(expr);
        let curr_token = match lexer.next() {
            Some(token) => token,
            None => return Err(ParseError::InvalidOperator("Invalid character".to_owned())),
        };
        if matches!(curr_token, Token::EOF) {
            return Err(ParseError::UnableToParse("Unable to Parse".to_owned()));
        }
        Ok(Parser { tokenizer: lexer, current_token: curr_token })
    }

    /// The whole parse: an expression at the neutral precedence.  The result
    /// is exactly `spec_generate_ast` of the starting state.
    pub fn parse(&mut self) -> (r: Result<Node, ParseError>)
        requires
            old(self).wf(),
        ensures
            outcome_matches(
                r,
                final(self).state(),
                spec_generate_ast(old(self).state(), OperPrec::DEFAULTZERO),
            ),
    {
        let ast = self.generate_ast(OperPrec::DEFAULTZERO);
        match ast {
            Ok(ast) => Ok(ast),
            Err(e) => Err(e),
        }
    }

    /// Replace the lookahead with the next scanned token; fails exactly when
    /// the scan does, and then keeps the old lookahead, with the cursor past
    /// the characters the failed scan consumed.
    fn get_next_token(&mut self) -> (r: Result<(), ParseError>)
        requires
            old(self).wf(),
        ensures
            match spec_advance(old(self).state()) {
                Some(st1) => r is Ok && final(self).wf() && final(self).state() == st1,
                None => r is Err && (r->Err_0 matches ParseError::InvalidOperator(m) && m@
                    == "Invalid character"@) && final(self).wf() && final(self).state() == (PState {
                    s: old(self).state().s,
                    pos: spec_scan(old(self).state().s, old(self).state().pos).next,
                    cur: old(self).state().cur,
                }),
            },
    {
        let next_token = match self.tokenizer.next() {
            Some(token) => token,
            None => return Err(ParseError::InvalidOperator("Invalid character".to_owned())),
        };
        self.current_token = next_token;
        Ok(())
    }

    /// Require the lookahead to be `expected` and consume it; a different
    /// lookahead is a mismatched parenthesis, reported with both the
    /// expected and the actual token, consuming nothing.
    fn check_paren(&mut self, expected: Token) -> (r: Result<(), ParseError>)
        requires
            old(self).wf(),
        ensures
            old(self).state().cur == expected@ ==> match spec_advance(old(self).state()) {
                Some(st1) => r is Ok && final(self).wf() && final(self).state() == st1,
                None => r is Err && r->Err_0 is InvalidOperator,
            },
            old(self).state().cur != expected@ ==> r is Err && (r->Err_0
                matches ParseError::InvalidOperator(m) && m@ == mismatch_message(
                expected@,
                old(self).state().cur,
            )) && *final(self) == *old(self),
    {
        if expected.same_token(&self.current_token) {
            self.get_next_token()?;
            Ok(())
        } else {
            let mut message = "Expected ".to_owned();
            message.append(expected.describe().as_str());
            message.append(", got ");
            message.append(self.current_token.describe().as_str());
            Err(ParseError::InvalidOperator(message))
        }
    }

    /// One primary expression, as `spec_parse_number` describes it.
    fn parse_number(&mut self) -> (r: Result<Node, ParseError>)
        requires
            old(self).wf(),
        ensures
            outcome_matches(r, final(self).state(), spec_parse_number(old(self).state())),
            r is Ok ==> final(self).wf() && p_measure(final(self).state()) < p_measure(
                old(self).state(),
            ),
            !(old(self).state().cur is Subtract || old(self).state().cur is Num || old(
                self,
            ).state().cur is LeftParen) ==> r is Err && (r->Err_0
                matches ParseError::UnableToParse(m) && m@ == "Unable to Parse"@) && *final(self)
                == *old(self),
        decreases p_measure(old(self).state()), 2int,
    {
        let ghost st0 = self.state();
        match &self.current_token {
            Token::SUBTRACT => {
                proof {
                    lemma_advance(st0);
                }
                self.get_next_token()?;
                let expr = self.generate_ast(OperPrec::NEGATIVE)?;
                Ok(Node::NEGATIVE(Box::new(expr)))
            },
            Token::NUM(s) => {
                let text = s.clone();
                proof {
                    lemma_advance(st0);
                }
                self.get_next_token()?;
                Ok(Node::NUMBER(text))
            },
            Token::LEFTPAREN => {
                proof {
                    lemma_advance(st0);
                }
                self.get_next_token()?;
                let expr = self.generate_ast(OperPrec::DEFAULTZERO)?;
                proof {
                    if self.state().cur is RightParen {
                        lemma_advance(self.state());
                    }
                }
                self.check_paren(Token::RIGHTPAREN)?;
                if matches!(self.current_token, Token::LEFTPAREN) {
                    let right = self.generate_ast(OperPrec::MULDIV)?;
                    return Ok(Node::MULTIPLY(Box::new(expr), Box::new(right)));
                }
                Ok(expr)
            },
            _ => Err(ParseError::UnableToParse("Unable to Parse".to_owned())),
        }
    }

    /// One binary operator folded onto `left_expr`, as `spec_convert`
    /// describes it.
    fn convert_to_node(&mut self, left_expr: Node) -> (r: Result<Node, ParseError>)
        requires
            old(self).wf(),
        ensures
            outcome_matches(
                r,
                final(self).state(),
                spec_convert(old(self).state(), left_expr@),
            ),
            r is Ok ==> final(self).wf() && p_measure(final(self).state()) < p_measure(
                old(self).state(),
            ),
            spec_oper_prec(old(self).state().cur) == OperPrec::DEFAULTZERO ==> r is Err && (
            r->Err_0 matches ParseError::InvalidOperator(m) && m@ == invalid_operator_message(
                old(self).state().cur,
            )) && *final(self) == *old(self),
        decreases p_measure(old(self).state()), 1int,
    {
        let ghost st0 = self.state();
        match self.current_token {
            Token::ADD => {
                proof {
                    lemma_advance(st0);
                }
                self.get_next_token()?;
                let right_expr = self.generate_ast(OperPrec::ADDSUB)?;
                Ok(Node::ADD(Box::new(left_expr), Box::new(right_expr)))
            },
            Token::SUBTRACT => {
                proof {
                    lemma_advance(st0);
                }
                self.get_next_token()?;
                let right_expr = self.generate_ast(OperPrec::ADDSUB)?;
                Ok(Node::SUBTRACT(Box::new(left_expr), Box::new(right_expr)))
            },
            Token::MULTIPLY => {
                proof {
                    lemma_advance(st0);
                }
                self.get_next_token()?;
                let right_expr = self.generate_ast(OperPrec::MULDIV)?;
                Ok(Node::MULTIPLY(Box::new(left_expr), Box::new(right_expr)))
            },
            Token::DIVIDE => {
                proof {
                    lemma_advance(st0);
                }
                self.get_next_token()?;
                let right_expr = self.generate_ast(OperPrec::MULDIV)?;
                Ok(Node::DIVIDE(Box::new(left_expr), Box::new(right_expr)))
            },
            Token::CARET => {
                proof {
                    lemma_advance(st0);
                }
                self.get_next_token()?;
                let right_expr = self.generate_ast(OperPrec::POWER)?;
                Ok(Node::CARRET(Box::new(left_expr), Box::new(right_expr)))
            },
            _ => {
                let mut message = "Please enter valid operator ".to_owned();
                message.append(self.current_token.describe().as_str());
                Err(ParseError::InvalidOperator(message))
            },
        }
    }

    /// An expression at precedence `oper_prec`: one primary, then the
    /// climbing loop, as `spec_generate_ast` describes it.
    fn generate_ast(&mut self, oper_prec: OperPrec) -> (r: Result<Node, ParseError>)
        requires
            old(self).wf(),
        ensures
            outcome_matches(
                r,
                final(self).state(),
                spec_generate_ast(old(self).state(), oper_prec),
            ),
            r is Ok ==> final(self).wf() && p_measure(final(self).state()) < p_measure(
                old(self).state(),
            ),
        decreases p_measure(old(self).state()), 3int,
    {
        let ghost st0 = self.state();
        let mut left_expr = self.parse_number()?;
        #[verifier::loop_isolation(false)]
        while self.binds_tighter(oper_prec)
            invariant
                self.wf(),
                p_measure(self.state()) < p_measure(st0),
                spec_generate_ast(st0, oper_prec) == spec_climb(
                    self.state(),
                    left_expr@,
                    oper_prec,
                ),
            decreases p_measure(self.state()),
        {
            left_expr = self.convert_to_node(left_expr)?;
        }
        Ok(left_expr)
    }

    /// Whether the climbing loop takes another turn: the lookahead binds
    /// more strongly than `oper_prec` and is not the end marker.
    fn binds_tighter(&self, oper_prec: OperPrec) -> (b: bool)
        ensures
            b == (prec_rank(oper_prec) < prec_rank(spec_oper_prec(self.state().cur)) && !(
            self.state().cur is Eof)),
    {
        if matches!(self.current_token, Token::EOF) {
            return false;
        }
        let prec = self.current_token.get_oper_prec();
        oper_prec < prec
    }
}

} // verus!
