//! The laws of the front end, each stated over the spec functions the
//! executable contracts use, and proved once and for all.

use vstd::prelude::*;
use crate::ast::NodeView;
use crate::parser::{ParseOutcome, PState};
use crate::token::{prec_rank, spec_oper_prec, OperPrec, TokenView};
use crate::tokenizer::{is_digit_char, is_num_char, is_numeral_text, lemma_num_run_end_at, num_run_end, spec_scan, ScanStep};
use crate::{spec_parse_expression, spec_strip};

verus! {

/// Parsing is a pure function of the text: two calls on the same characters
/// give the same outcome, with no state carried from one call to the next.
pub proof fn lemma_reevaluation_identical(a: Seq<char>, b: Seq<char>)
    requires
        a == b,
    ensures
        spec_parse_expression(a) == spec_parse_expression(b),
{
}

/// Whitespace never matters: two inputs that agree once their whitespace is
/// removed parse to the very same outcome.
pub proof fn lemma_whitespace_insensitive(a: Seq<char>, b: Seq<char>)
    requires
        spec_strip(a) == spec_strip(b),
    ensures
        spec_parse_expression(a) == spec_parse_expression(b),
{
}

/// A binary operator character.
pub open spec fn is_operator_char(c: char) -> bool {
    c == '+' || c == '-' || c == '*' || c == '/' || c == '^'
}

/// The token an operator character scans to.
pub open spec fn operator_token(c: char) -> TokenView {
    if c == '+' {
        TokenView::Add
    } else if c == '-' {
        TokenView::Subtract
    } else if c == '*' {
        TokenView::Multiply
    } else if c == '/' {
        TokenView::Divide
    } else {
        TokenView::Caret
    }
}

/// The node an operator character builds from its two operands.
pub open spec fn operator_node(c: char, l: NodeView, r: NodeView) -> NodeView {
    if c == '+' {
        NodeView::Add(Box::new(l), Box::new(r))
    } else if c == '-' {
        NodeView::Subtract(Box::new(l), Box::new(r))
    } else if c == '*' {
        NodeView::Multiply(Box::new(l), Box::new(r))
    } else if c == '/' {
        NodeView::Divide(Box::new(l), Box::new(r))
    } else {
        NodeView::Carret(Box::new(l), Box::new(r))
    }
}

/// One scanner step on a numeral that runs from `i` to `j`.
proof fn lemma_scan_numeral(s: Seq<char>, i: int, j: int)
    requires
        0 <= i < j <= s.len(),
        is_digit_char(s[i]),
        forall|k: int| i < k < j ==> is_num_char(s[k]),
        j < s.len() ==> !is_num_char(s[j]) && s[j] != '(',
    ensures
        spec_scan(s, i) == (ScanStep { tok: Some(TokenView::Num(s.subrange(i, j))), next: j }),
{
    lemma_num_run_end_at(s, i + 1, j);
}

/// One scanner step on an operator character.
proof fn lemma_scan_operator(s: Seq<char>, i: int)
    requires
        0 <= i < s.len(),
        is_operator_char(s[i]),
    ensures
        spec_scan(s, i) == (ScanStep { tok: Some(operator_token(s[i])), next: i + 1 }),
{
}

/// What the scanner yields, step by step, on three numerals joined by two
/// operator characters, and hence where the parse of that text starts.
#[verifier::rlimit(100)]
proof fn lemma_scan_three_terms(
    text: Seq<char>,
    t1: Seq<char>,
    o1: char,
    t2: Seq<char>,
    o2: char,
    t3: Seq<char>,
)
    requires
        text == t1 + seq![o1] + t2 + seq![o2] + t3,
        is_numeral_text(t1),
        is_numeral_text(t2),
        is_numeral_text(t3),
        is_operator_char(o1),
        is_operator_char(o2),
    ensures
        text.len() == t1.len() + t2.len() + t3.len() + 2,
        spec_strip(text) == text,
        spec_scan(text, 0) == (ScanStep {
            tok: Some(TokenView::Num(t1)),
            next: t1.len() as int,
        }),
        spec_scan(text, t1.len() as int) == (ScanStep {
            tok: Some(operator_token(o1)),
            next: t1.len() as int + 1,
        }),
        spec_scan(text, t1.len() as int + 1) == (ScanStep {
            tok: Some(TokenView::Num(t2)),
            next: t1.len() as int + 1 + t2.len() as int,
        }),
        spec_scan(text, t1.len() as int + 1 + t2.len() as int) == (ScanStep {
            tok: Some(operator_token(o2)),
            next: t1.len() as int + 2 + t2.len() as int,
        }),
        spec_scan(text, t1.len() as int + 2 + t2.len() as int) == (ScanStep {
            tok: Some(TokenView::Num(t3)),
            next: text.len() as int,
        }),
        spec_scan(text, text.len() as int) == (ScanStep {
            tok: Some(TokenView::Eof),
            next: text.len() as int,
        }),
{
    let a = t1.len() as int;
    let b = t2.len() as int;
    let c = t3.len() as int;
    let n = text.len() as int;
    assert(n == a + b + c + 2);
    assert(text[a] == o1);
    assert(text[a + 1 + b] == o2);
    assert(text.subrange(0, a) =~= t1);
    assert(text.subrange(a + 1, a + 1 + b) =~= t2);
    assert(text.subrange(a + 2 + b, n) =~= t3);
    assert forall|k: int| 0 < k < a implies is_num_char(text[k]) by {
        assert(text[k] == t1[k]);
    }
    assert forall|k: int| a + 1 < k < a + 1 + b implies is_num_char(text[k]) by {
        assert(text[k] == t2[k - a - 1]);
    }
    assert forall|k: int| a + 2 + b < k < n implies is_num_char(text[k]) by {
        assert(text[k] == t3[k - a - 2 - b]);
    }
    lemma_scan_numeral(text, 0, a);
    lemma_scan_operator(text, a);
    lemma_scan_numeral(text, a + 1, a + 1 + b);
    lemma_scan_operator(text, a + 1 + b);
    lemma_scan_numeral(text, a + 2 + b, n);
    assert forall|k: int| 0 <= k < n implies !crate::is_space_char(text[k]) by {
        if k < a {
            assert(text[k] == t1[k]);
            assert(is_num_char(t1[k]));
        } else if a + 1 <= k < a + 1 + b {
            assert(text[k] == t2[k - a - 1]);
            assert(is_num_char(t2[k - a - 1]));
        } else if a + 2 + b <= k {
            assert(text[k] == t3[k - a - 2 - b]);
            assert(is_num_char(t3[k - a - 2 - b]));
        }
    }
    crate::lemma_strip_identity(text);
}

/// The parse across two operator tokens, given what the scanner yields at
/// each cursor the parser reaches.  Stating the scanner's steps as
/// hypotheses keeps this independent of how the text is put together.
#[verifier::rlimit(100)]
proof fn lemma_parse_two_operators(
    s: Seq<char>,
    t1: Seq<char>,
    o1: char,
    t2: Seq<char>,
    o2: char,
    t3: Seq<char>,
)
    requires
        is_operator_char(o1),
        is_operator_char(o2),
        prec_rank(spec_oper_prec(operator_token(o2))) <= prec_rank(
            spec_oper_prec(operator_token(o1)),
        ),
        t1.len() > 0,
        t2.len() > 0,
        t3.len() > 0,
        s.len() == t1.len() + t2.len() + t3.len() + 2,
        spec_scan(s, t1.len() as int) == (ScanStep {
            tok: Some(operator_token(o1)),
            next: t1.len() as int + 1,
        }),
        spec_scan(s, t1.len() as int + 1) == (ScanStep {
            tok: Some(TokenView::Num(t2)),
            next: t1.len() as int + 1 + t2.len() as int,
        }),
        spec_scan(s, t1.len() as int + 1 + t2.len() as int) == (ScanStep {
            tok: Some(operator_token(o2)),
            next: t1.len() as int + 2 + t2.len() as int,
        }),
        spec_scan(s, t1.len() as int + 2 + t2.len() as int) == (ScanStep {
            tok: Some(TokenView::Num(t3)),
            next: s.len() as int,
        }),
        spec_scan(s, s.len() as int) == (ScanStep {
            tok: Some(TokenView::Eof),
            next: s.len() as int,
        }),
    ensures
        crate::parser::spec_generate_ast(
            PState { s: s, pos: t1.len() as int, cur: TokenView::Num(t1) },
            OperPrec::DEFAULTZERO,
        ) == ParseOutcome::Parsed(
            operator_node(
                o2,
                operator_node(o1, NodeView::Number(t1), NodeView::Number(t2)),
                NodeView::Number(t3),
            ),
            (PState { s: s, pos: s.len() as int, cur: TokenView::Eof }),
        ),
{
    let a = t1.len() as int;
    let b = t2.len() as int;
    let n = s.len() as int;
    let n1 = NodeView::Number(t1);
    let n2 = NodeView::Number(t2);
    let n3 = NodeView::Number(t3);
    let st0 = PState { s: s, pos: a, cur: TokenView::Num(t1) };
    let st1 = PState { s: s, pos: a + 1, cur: operator_token(o1) };
    let st2 = PState { s: s, pos: a + 1 + b, cur: TokenView::Num(t2) };
    let st3 = PState { s: s, pos: a + 2 + b, cur: operator_token(o2) };
    let st4 = PState { s: s, pos: n, cur: TokenView::Num(t3) };
    let st5 = PState { s: s, pos: n, cur: TokenView::Eof };
    reveal_with_fuel(crate::parser::spec_climb, 4);
    reveal_with_fuel(crate::parser::spec_generate_ast, 4);
    reveal_with_fuel(crate::parser::spec_parse_number, 4);
    reveal_with_fuel(crate::parser::spec_convert, 4);
    reveal_with_fuel(crate::parser::spec_rhs, 4);
    assert(crate::parser::spec_parse_number(st4) == ParseOutcome::Parsed(n3, st5));
    assert(crate::parser::spec_generate_ast(st4, spec_oper_prec(operator_token(o2)))
        == ParseOutcome::Parsed(n3, st5));
    assert(crate::parser::spec_convert(st3, operator_node(o1, n1, n2)) == ParseOutcome::Parsed(
        operator_node(o2, operator_node(o1, n1, n2), n3),
        st5,
    ));
    assert(crate::parser::spec_parse_number(st2) == ParseOutcome::Parsed(n2, st3));
    assert(crate::parser::spec_generate_ast(st2, spec_oper_prec(operator_token(o1)))
        == ParseOutcome::Parsed(n2, st3));
    assert(crate::parser::spec_convert(st1, n1) == ParseOutcome::Parsed(
        operator_node(o1, n1, n2),
        st3,
    ));
    assert(crate::parser::spec_parse_number(st0) == ParseOutcome::Parsed(n1, st1));
    assert(crate::parser::spec_generate_ast(st0, OperPrec::DEFAULTZERO) == ParseOutcome::Parsed(
        operator_node(o2, operator_node(o1, n1, n2), n3),
        st5,
    ));
}

/// Where the parse of a whitespace-free text that opens with a numeral
/// starts: at the state just past that first token.
proof fn lemma_parse_expression_start(text: Seq<char>, t1: Seq<char>)
    requires
        spec_strip(text) == text,
        spec_scan(text, 0) == (ScanStep {
            tok: Some(TokenView::Num(t1)),
            next: t1.len() as int,
        }),
    ensures
        spec_parse_expression(text) == crate::parser::spec_generate_ast(
            (PState { s: text, pos: t1.len() as int, cur: TokenView::Num(t1) }),
            OperPrec::DEFAULTZERO,
        ),
{
}

/// A later operator that binds no more strongly never takes an operand away
/// from an earlier one: when `o2`'s precedence class is at or below `o1`'s,
/// the three numerals parse as `(t1 o1 t2) o2 t3`.  For two operators of one
/// class this is left-to-right associativity; the exponent operator shares
/// its class only with itself, so exponentiation, too, folds to the left.
#[verifier::rlimit(100)]
pub proof fn lemma_precedence_folds_left(
    t1: Seq<char>,
    o1: char,
    t2: Seq<char>,
    o2: char,
    t3: Seq<char>,
)
    requires
        is_numeral_text(t1),
        is_numeral_text(t2),
        is_numeral_text(t3),
        is_operator_char(o1),
        is_operator_char(o2),
        prec_rank(spec_oper_prec(operator_token(o2))) <= prec_rank(
            spec_oper_prec(operator_token(o1)),
        ),
    ensures
        spec_parse_expression(t1 + seq![o1] + t2 + seq![o2] + t3) == ParseOutcome::Parsed(
            operator_node(
                o2,
                operator_node(o1, NodeView::Number(t1), NodeView::Number(t2)),
                NodeView::Number(t3),
            ),
            (PState {
                s: t1 + seq![o1] + t2 + seq![o2] + t3,
                pos: (t1 + seq![o1] + t2 + seq![o2] + t3).len() as int,
                cur: TokenView::Eof,
            }),
        ),
{
    let text = t1 + seq![o1] + t2 + seq![o2] + t3;
    lemma_scan_three_terms(text, t1, o1, t2, o2, t3);
    lemma_parse_expression_start(text, t1);
    lemma_parse_two_operators(text, t1, o1, t2, o2, t3);
}

/// A later operator that binds more strongly takes the middle numeral as its
/// own left operand: when `o2`'s precedence class is above `o1`'s, the three
/// numerals parse as `d1 o1 (d2 o2 d3)`.
pub proof fn lemma_precedence_binds_right(d1: char, o1: char, d2: char, o2: char, d3: char)
    requires
        is_digit_char(d1),
        is_digit_char(d2),
        is_digit_char(d3),
        is_operator_char(o1),
        is_operator_char(o2),
        prec_rank(spec_oper_prec(operator_token(o1))) < prec_rank(
            spec_oper_prec(operator_token(o2)),
        ),
    ensures
        spec_parse_expression(seq![d1, o1, d2, o2, d3]) == ParseOutcome::Parsed(
            operator_node(
                o1,
                NodeView::Number(seq![d1]),
                operator_node(o2, NodeView::Number(seq![d2]), NodeView::Number(seq![d3])),
            ),
            (PState { s: seq![d1, o1, d2, o2, d3], pos: 5, cur: TokenView::Eof }),
        ),
{
    let text = seq![d1, o1, d2, o2, d3];
    assert(spec_strip(text) =~= text) by {
        reveal_with_fuel(Seq::filter, 6);
        assert(text.drop_last() =~= seq![d1, o1, d2, o2]);
        assert(seq![d1, o1, d2, o2].drop_last() =~= seq![d1, o1, d2]);
        assert(seq![d1, o1, d2].drop_last() =~= seq![d1, o1]);
        assert(seq![d1, o1].drop_last() =~= seq![d1]);
        assert(seq![d1].drop_last() =~= Seq::<char>::empty());
    }
    assert(num_run_end(text, 1) == 1);
    assert(num_run_end(text, 3) == 3);
    assert(num_run_end(text, 5) == 5);
    assert(spec_scan(text, 0) == (ScanStep {
        tok: Some(TokenView::Num(text.subrange(0, 1))),
        next: 1,
    }));
    assert(spec_scan(text, 1) == (ScanStep { tok: Some(operator_token(o1)), next: 2 }));
    assert(spec_scan(text, 2) == (ScanStep {
        tok: Some(TokenView::Num(text.subrange(2, 3))),
        next: 3,
    }));
    assert(spec_scan(text, 3) == (ScanStep { tok: Some(operator_token(o2)), next: 4 }));
    assert(spec_scan(text, 4) == (ScanStep {
        tok: Some(TokenView::Num(text.subrange(4, 5))),
        next: 5,
    }));
    assert(spec_scan(text, 5) == (ScanStep { tok: Some(TokenView::Eof), next: 5 }));
    assert(text.subrange(0, 1) =~= seq![d1]);
    assert(text.subrange(2, 3) =~= seq![d2]);
    assert(text.subrange(4, 5) =~= seq![d3]);
    let n1 = NodeView::Number(seq![d1]);
    let n2 = NodeView::Number(seq![d2]);
    let n3 = NodeView::Number(seq![d3]);
    let st0 = PState { s: text, pos: 1, cur: TokenView::Num(seq![d1]) };
    let st1 = PState { s: text, pos: 2, cur: operator_token(o1) };
    let st2 = PState { s: text, pos: 3, cur: TokenView::Num(seq![d2]) };
    let st3 = PState { s: text, pos: 4, cur: operator_token(o2) };
    let st4 = PState { s: text, pos: 5, cur: TokenView::Num(seq![d3]) };
    let st5 = PState { s: text, pos: 5, cur: TokenView::Eof };
    reveal_with_fuel(crate::parser::spec_climb, 4);
    reveal_with_fuel(crate::parser::spec_generate_ast, 4);
    reveal_with_fuel(crate::parser::spec_parse_number, 4);
    reveal_with_fuel(crate::parser::spec_convert, 4);
    reveal_with_fuel(crate::parser::spec_rhs, 4);
    assert(crate::parser::spec_parse_number(st4) == ParseOutcome::Parsed(n3, st5));
    assert(crate::parser::spec_generate_ast(st4, spec_oper_prec(operator_token(o2)))
        == ParseOutcome::Parsed(n3, st5));
    assert(crate::parser::spec_convert(st3, n2) == ParseOutcome::Parsed(
        operator_node(o2, n2, n3),
        st5,
    ));
    assert(crate::parser::spec_parse_number(st2) == ParseOutcome::Parsed(n2, st3));
    assert(crate::parser::spec_climb(st3, n2, spec_oper_prec(operator_token(o1)))
        == ParseOutcome::Parsed(operator_node(o2, n2, n3), st5));
    assert(crate::parser::spec_generate_ast(st2, spec_oper_prec(operator_token(o1)))
        == ParseOutcome::Parsed(operator_node(o2, n2, n3), st5));
    assert(crate::parser::spec_convert(st1, n1) == ParseOutcome::Parsed(
        operator_node(o1, n1, operator_node(o2, n2, n3)),
        st5,
    ));
    assert(crate::parser::spec_parse_number(st0) == ParseOutcome::Parsed(n1, st1));
    assert(crate::parser::spec_generate_ast(st0, OperPrec::DEFAULTZERO) == ParseOutcome::Parsed(
        operator_node(o1, n1, operator_node(o2, n2, n3)),
        st5,
    ));
}

/// A leading `-` negates the numeral right after it, and only that numeral:
/// whatever operator follows takes the finished negation as its left
/// operand, so `- d1 o1 d2` parses as `(-d1) o1 d2`.
pub proof fn lemma_negation_binds_first(d1: char, o1: char, d2: char)
    requires
        is_digit_char(d1),
        is_digit_char(d2),
        is_operator_char(o1),
    ensures
        spec_parse_expression(seq!['-', d1, o1, d2]) == ParseOutcome::Parsed(
            operator_node(
                o1,
                NodeView::Negative(Box::new(NodeView::Number(seq![d1]))),
                NodeView::Number(seq![d2]),
            ),
            (PState { s: seq!['-', d1, o1, d2], pos: 4, cur: TokenView::Eof }),
        ),
{
    let text = seq!['-', d1, o1, d2];
    assert(spec_strip(text) =~= text) by {
        reveal_with_fuel(Seq::filter, 5);
        assert(text.drop_last() =~= seq!['-', d1, o1]);
        assert(seq!['-', d1, o1].drop_last() =~= seq!['-', d1]);
        assert(seq!['-', d1].drop_last() =~= seq!['-']);
        assert(seq!['-'].drop_last() =~= Seq::<char>::empty());
    }
    assert(num_run_end(text, 2) == 2);
    assert(num_run_end(text, 4) == 4);
    assert(spec_scan(text, 0) == (ScanStep { tok: Some(TokenView::Subtract), next: 1 }));
    assert(spec_scan(text, 1) == (ScanStep {
        tok: Some(TokenView::Num(text.subrange(1, 2))),
        next: 2,
    }));
    assert(spec_scan(text, 2) == (ScanStep { tok: Some(operator_token(o1)), next: 3 }));
    assert(spec_scan(text, 3) == (ScanStep {
        tok: Some(TokenView::Num(text.subrange(3, 4))),
        next: 4,
    }));
    assert(spec_scan(text, 4) == (ScanStep { tok: Some(TokenView::Eof), next: 4 }));
    assert(text.subrange(1, 2) =~= seq![d1]);
    assert(text.subrange(3, 4) =~= seq![d2]);
    let n1 = NodeView::Number(seq![d1]);
    let n2 = NodeView::Number(seq![d2]);
    let st0 = PState { s: text, pos: 1, cur: TokenView::Subtract };
    let st1 = PState { s: text, pos: 2, cur: TokenView::Num(seq![d1]) };
    let st2 = PState { s: text, pos: 3, cur: operator_token(o1) };
    let st3 = PState { s: text, pos: 4, cur: TokenView::Num(seq![d2]) };
    let st4 = PState { s: text, pos: 4, cur: TokenView::Eof };
    reveal_with_fuel(crate::parser::spec_climb, 4);
    reveal_with_fuel(crate::parser::spec_generate_ast, 4);
    reveal_with_fuel(crate::parser::spec_parse_number, 4);
    reveal_with_fuel(crate::parser::spec_convert, 4);
    reveal_with_fuel(crate::parser::spec_rhs, 4);
    assert(crate::parser::spec_parse_number(st1) == ParseOutcome::Parsed(n1, st2));
    assert(crate::parser::spec_generate_ast(st1, OperPrec::NEGATIVE) == ParseOutcome::Parsed(
        n1,
        st2,
    ));
    assert(crate::parser::spec_parse_number(st0) == ParseOutcome::Parsed(
        NodeView::Negative(Box::new(n1)),
        st2,
    ));
    assert(crate::parser::spec_parse_number(st3) == ParseOutcome::Parsed(n2, st4));
    assert(crate::parser::spec_generate_ast(st3, spec_oper_prec(operator_token(o1)))
        == ParseOutcome::Parsed(n2, st4));
    assert(crate::parser::spec_convert(st2, NodeView::Negative(Box::new(n1)))
        == ParseOutcome::Parsed(
        operator_node(o1, NodeView::Negative(Box::new(n1)), n2),
        st4,
    ));
    assert(crate::parser::spec_generate_ast(st0, OperPrec::DEFAULTZERO) == ParseOutcome::Parsed(
        operator_node(o1, NodeView::Negative(Box::new(n1)), n2),
        st4,
    ));
}

/// A group that is never closed is an error, not a silent partial result:
/// `( d1 o1 d2` with the closing parenthesis missing fails the parse with
/// the mismatched-parenthesis error.
pub proof fn lemma_unclosed_parenthesis_is_error(d1: char, o1: char, d2: char)
    requires
        is_digit_char(d1),
        is_digit_char(d2),
        is_operator_char(o1),
    ensures
        spec_parse_expression(seq!['(', d1, o1, d2]) == ParseOutcome::FailedOperator,
{
    let text = seq!['(', d1, o1, d2];
    assert(spec_strip(text) =~= text) by {
        reveal_with_fuel(Seq::filter, 5);
        assert(text.drop_last() =~= seq!['(', d1, o1]);
        assert(seq!['(', d1, o1].drop_last() =~= seq!['(', d1]);
        assert(seq!['(', d1].drop_last() =~= seq!['(']);
        assert(seq!['('].drop_last() =~= Seq::<char>::empty());
    }
    assert(num_run_end(text, 2) == 2);
    assert(num_run_end(text, 4) == 4);
    assert(spec_scan(text, 0) == (ScanStep { tok: Some(TokenView::LeftParen), next: 1 }));
    assert(spec_scan(text, 1) == (ScanStep {
        tok: Some(TokenView::Num(text.subrange(1, 2))),
        next: 2,
    }));
    assert(spec_scan(text, 2) == (ScanStep { tok: Some(operator_token(o1)), next: 3 }));
    assert(spec_scan(text, 3) == (ScanStep {
        tok: Some(TokenView::Num(text.subrange(3, 4))),
        next: 4,
    }));
    assert(spec_scan(text, 4) == (ScanStep { tok: Some(TokenView::Eof), next: 4 }));
    let n1 = NodeView::Number(text.subrange(1, 2));
    let n2 = NodeView::Number(text.subrange(3, 4));
    let st0 = PState { s: text, pos: 1, cur: TokenView::LeftParen };
    let st1 = PState { s: text, pos: 2, cur: TokenView::Num(text.subrange(1, 2)) };
    let st2 = PState { s: text, pos: 3, cur: operator_token(o1) };
    let st3 = PState { s: text, pos: 4, cur: TokenView::Num(text.subrange(3, 4)) };
    let st4 = PState { s: text, pos: 4, cur: TokenView::Eof };
    reveal_with_fuel(crate::parser::spec_climb, 4);
    reveal_with_fuel(crate::parser::spec_generate_ast, 4);
    reveal_with_fuel(crate::parser::spec_parse_number, 4);
    reveal_with_fuel(crate::parser::spec_convert, 4);
    reveal_with_fuel(crate::parser::spec_rhs, 4);
    reveal_with_fuel(crate::parser::spec_close_paren, 4);
    assert(crate::parser::spec_parse_number(st3) == ParseOutcome::Parsed(n2, st4));
    assert(crate::parser::spec_generate_ast(st3, spec_oper_prec(operator_token(o1)))
        == ParseOutcome::Parsed(n2, st4));
    assert(crate::parser::spec_convert(st2, n1) == ParseOutcome::Parsed(
        operator_node(o1, n1, n2),
        st4,
    ));
    assert(crate::parser::spec_parse_number(st1) == ParseOutcome::Parsed(n1, st2));
    assert(crate::parser::spec_generate_ast(st1, OperPrec::DEFAULTZERO) == ParseOutcome::Parsed(
        operator_node(o1, n1, n2),
        st4,
    ));
    assert(crate::parser::spec_close_paren(st0, operator_node(o1, n1, n2), st4)
        == ParseOutcome::FailedOperator);
    assert(crate::parser::spec_parse_number(st0) == ParseOutcome::FailedOperator);
    assert(crate::parser::spec_generate_ast(st0, OperPrec::DEFAULTZERO)
        == ParseOutcome::FailedOperator);
}

/// Parentheses override precedence: whatever the two operators' classes,
/// `( d1 o1 d2 ) o2 d3` parses with the parenthesized group as the left
/// operand of `o2`.
pub proof fn lemma_parentheses_override_precedence(
    d1: char,
    o1: char,
    d2: char,
    o2: char,
    d3: char,
)
    requires
        is_digit_char(d1),
        is_digit_char(d2),
        is_digit_char(d3),
        is_operator_char(o1),
        is_operator_char(o2),
    ensures
        spec_parse_expression(seq!['(', d1, o1, d2, ')', o2, d3]) == ParseOutcome::Parsed(
            operator_node(
                o2,
                operator_node(o1, NodeView::Number(seq![d1]), NodeView::Number(seq![d2])),
                NodeView::Number(seq![d3]),
            ),
            (PState { s: seq!['(', d1, o1, d2, ')', o2, d3], pos: 7, cur: TokenView::Eof }),
        ),
{
    let text = seq!['(', d1, o1, d2, ')', o2, d3];
    assert(spec_strip(text) =~= text) by {
        reveal_with_fuel(Seq::filter, 8);
        assert(text.drop_last() =~= seq!['(', d1, o1, d2, ')', o2]);
        assert(seq!['(', d1, o1, d2, ')', o2].drop_last() =~= seq!['(', d1, o1, d2, ')']);
        assert(seq!['(', d1, o1, d2, ')'].drop_last() =~= seq!['(', d1, o1, d2]);
        assert(seq!['(', d1, o1, d2].drop_last() =~= seq!['(', d1, o1]);
        assert(seq!['(', d1, o1].drop_last() =~= seq!['(', d1]);
        assert(seq!['(', d1].drop_last() =~= seq!['(']);
        assert(seq!['('].drop_last() =~= Seq::<char>::empty());
    }
    assert(num_run_end(text, 2) == 2);
    assert(num_run_end(text, 4) == 4);
    assert(num_run_end(text, 7) == 7);
    assert(spec_scan(text, 0) == (ScanStep { tok: Some(TokenView::LeftParen), next: 1 }));
    assert(spec_scan(text, 1) == (ScanStep {
        tok: Some(TokenView::Num(text.subrange(1, 2))),
        next: 2,
    }));
    assert(spec_scan(text, 2) == (ScanStep { tok: Some(operator_token(o1)), next: 3 }));
    assert(spec_scan(text, 3) == (ScanStep {
        tok: Some(TokenView::Num(text.subrange(3, 4))),
        next: 4,
    }));
    assert(spec_scan(text, 4) == (ScanStep { tok: Some(TokenView::RightParen), next: 5 }));
    assert(spec_scan(text, 5) == (ScanStep { tok: Some(operator_token(o2)), next: 6 }));
    assert(spec_scan(text, 6) == (ScanStep {
        tok: Some(TokenView::Num(text.subrange(6, 7))),
        next: 7,
    }));
    assert(spec_scan(text, 7) == (ScanStep { tok: Some(TokenView::Eof), next: 7 }));
    assert(text.subrange(1, 2) =~= seq![d1]);
    assert(text.subrange(3, 4) =~= seq![d2]);
    assert(text.subrange(6, 7) =~= seq![d3]);
    let n1 = NodeView::Number(seq![d1]);
    let n2 = NodeView::Number(seq![d2]);
    let n3 = NodeView::Number(seq![d3]);
    let group = operator_node(o1, n1, n2);
    let st0 = PState { s: text, pos: 1, cur: TokenView::LeftParen };
    let st1 = PState { s: text, pos: 2, cur: TokenView::Num(seq![d1]) };
    let st2 = PState { s: text, pos: 3, cur: operator_token(o1) };
    let st3 = PState { s: text, pos: 4, cur: TokenView::Num(seq![d2]) };
    let st4 = PState { s: text, pos: 5, cur: TokenView::RightParen };
    let st5 = PState { s: text, pos: 6, cur: operator_token(o2) };
    let st6 = PState { s: text, pos: 7, cur: TokenView::Num(seq![d3]) };
    let st7 = PState { s: text, pos: 7, cur: TokenView::Eof };
    reveal_with_fuel(crate::parser::spec_climb, 4);
    reveal_with_fuel(crate::parser::spec_generate_ast, 4);
    reveal_with_fuel(crate::parser::spec_parse_number, 4);
    reveal_with_fuel(crate::parser::spec_convert, 4);
    reveal_with_fuel(crate::parser::spec_rhs, 4);
    reveal_with_fuel(crate::parser::spec_close_paren, 4);
    assert(crate::parser::spec_parse_number(st3) == ParseOutcome::Parsed(n2, st4));
    assert(crate::parser::spec_generate_ast(st3, spec_oper_prec(operator_token(o1)))
        == ParseOutcome::Parsed(n2, st4));
    assert(crate::parser::spec_convert(st2, n1) == ParseOutcome::Parsed(group, st4));
    assert(crate::parser::spec_parse_number(st1) == ParseOutcome::Parsed(n1, st2));
    assert(crate::parser::spec_generate_ast(st1, OperPrec::DEFAULTZERO) == ParseOutcome::Parsed(
        group,
        st4,
    ));
    assert(crate::parser::spec_close_paren(st0, group, st4) == ParseOutcome::Parsed(group, st5));
    assert(crate::parser::spec_parse_number(st0) == ParseOutcome::Parsed(group, st5));
    assert(crate::parser::spec_parse_number(st6) == ParseOutcome::Parsed(n3, st7));
    assert(crate::parser::spec_generate_ast(st6, spec_oper_prec(operator_token(o2)))
        == ParseOutcome::Parsed(n3, st7));
    assert(crate::parser::spec_convert(st5, group) == ParseOutcome::Parsed(
        operator_node(o2, group, n3),
        st7,
    ));
    assert(crate::parser::spec_generate_ast(st0, OperPrec::DEFAULTZERO) == ParseOutcome::Parsed(
        operator_node(o2, group, n3),
        st7,
    ));
}

} // verus!
