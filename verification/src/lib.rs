//! An infix arithmetic expression front end: a character scanner, a
//! precedence-climbing parser, and the abstract syntax tree the parser
//! builds.  Numerals travel through the pipeline as the exact text the
//! scanner consumed for them; turning that text into a machine number, and
//! evaluating the finished tree numerically, is the embedding program's
//! concern.

pub mod ast;
pub mod laws;
pub mod parser;
pub mod token;
pub mod tokenizer;

use vstd::prelude::*;
use vstd::string::StrSliceExecFns;
use vstd::string::StringExecFns;
use crate::ast::Node;
use crate::parser::{spec_generate_ast, ParseError, ParseOutcome, Parser, PState};
use crate::token::OperPrec;
use crate::tokenizer::spec_scan;

verus! {

/// A whitespace character, as Rust's `char::is_whitespace` counts them.
pub open spec fn is_space_char(c: char) -> bool {
    c == ' ' || c == '\t' || c == '\n' || c == '\u{000B}' || c == '\u{000C}' || c == '\r' || c
        == '\u{0085}' || c == '\u{00A0}' || c == '\u{1680}' || ('\u{2000}' <= c && c
        <= '\u{200A}') || c == '\u{2028}' || c == '\u{2029}' || c == '\u{202F}' || c == '\u{205F}'
        || c == '\u{3000}'
}

fn is_whitespace_char(c: char) -> (b: bool)
    ensures
        b == is_space_char(c),
{
    c == ' ' || c == '\t' || c == '\n' || c == '\u{000B}' || c == '\u{000C}' || c == '\r' || c
        == '\u{0085}' || c == '\u{00A0}' || c == '\u{1680}' || ('\u{2000}' <= c && c
        <= '\u{200A}') || c == '\u{2028}' || c == '\u{2029}' || c == '\u{202F}' || c == '\u{205F}'
        || c == '\u{3000}'
}

/// The characters of `text` with all whitespace removed.
pub open spec fn spec_strip(text: Seq<char>) -> Seq<char> {
    text.filter(|c: char| !is_space_char(c))
}

/// Removes every whitespace character of `expr`, keeping the rest in order.
pub fn strip_whitespace(expr: &str) -> (r: String)
    ensures
        r@ == spec_strip(expr@),
{
    let len = expr.unicode_len();
    let mut out = String::new();
    let mut i: usize = 0;
    while i < len
        invariant
            i <= len,
            len == expr@.len(),
            out@ == spec_strip(expr@.subrange(0, i as int)),
        decreases len - i,
    {
        let c = expr.get_char(i);
        proof {
            reveal_with_fuel(Seq::filter, 2);
            let sub1 = expr@.subrange(0, i as int + 1);
            let sub0 = expr@.subrange(0, i as int);
            assert(sub1.drop_last() =~= sub0);
            assert(sub1.last() == c);
            assert(spec_strip(sub1) == if !is_space_char(c) {
                spec_strip(sub0).push(c)
            } else {
                spec_strip(sub0)
            });
        }
        if !is_whitespace_char(c) {
            let piece = expr.substring_char(i, i + 1);
            out.append(piece);
            proof {
                assert(out@ =~= spec_strip(expr@.subrange(0, i as int)).push(c));
            }
        }
        i = i + 1;
    }
    proof {
        assert(expr@.subrange(0, len as int) =~= expr@);
    }
    out
}

/// Stripping changes nothing when no character is whitespace.
pub proof fn lemma_strip_identity(s: Seq<char>)
    requires
        forall|k: int| 0 <= k < s.len() ==> !is_space_char(s[k]),
    ensures
        spec_strip(s) == s,
    decreases s.len(),
{
    reveal_with_fuel(Seq::filter, 2);
    if s.len() == 0 {
        assert(spec_strip(s) =~= s);
    } else {
        lemma_strip_identity(s.drop_last());
        assert(spec_strip(s) =~= s);
    }
}

/// The whole front end on `text`: strip whitespace, prime the parser with
/// the first token, and parse an expression at the neutral precedence.
pub open spec fn spec_parse_expression(text: Seq<char>) -> ParseOutcome {
    let s = spec_strip(text);
    let step = spec_scan(s, 0);
    match step.tok {
        None => ParseOutcome::FailedOperator,
        Some(t) => spec_generate_ast(
            PState { s: s, pos: step.next, cur: t },
            OperPrec::DEFAULTZERO,
        ),
    }
}

/// Strips whitespace from `expr` and parses it into a syntax tree.  The
/// result is exactly what `spec_parse_expression` says: the parsed tree for
/// an input the grammar accepts, and the matching error variant otherwise.
/// It terminates on every input and never panics; evaluating the returned
/// tree numerically is left to the caller.
pub fn parse_expression(expr: &str) -> (r: Result<Node, ParseError>)
    ensures
        match spec_parse_expression(expr@) {
            ParseOutcome::Parsed(n, st) => r is Ok && r->Ok_0@ == n,
            ParseOutcome::FailedParse => r is Err && r->Err_0 is UnableToParse,
            ParseOutcome::FailedOperator => r is Err && r->Err_0 is InvalidOperator,
        },
{
    let stripped = strip_whitespace(expr);
    let mut math_parser = match Parser::new(stripped.as_str()) {
        Ok(p) => p,
        Err(e) => {
            return Err(e);
        },
    };
    math_parser.parse()
}

} // verus!
