//! The scanner: pulls the characters of an expression apart into tokens.

use vstd::prelude::*;
use vstd::string::StrSliceExecFns;
use crate::token::{Token, TokenView};

verus! {

/// A decimal digit.
pub open spec fn is_digit_char(c: char) -> bool {
    '0' <= c && c <= '9'
}

/// A character that may continue a numeral: a digit or the decimal point.
pub open spec fn is_num_char(c: char) -> bool {
    is_digit_char(c) || c == '.'
}

/// The index just past the run of numeral characters that starts at `i`.
pub open spec fn num_run_end(s: Seq<char>, i: int) -> int
    decreases s.len() - i when 0 <= i <= s.len()
{
    if i == s.len() {
        i
    } else if is_num_char(s[i]) {
        num_run_end(s, i + 1)
    } else {
        i
    }
}

/// The text of one numeral: a digit followed by digits or decimal points.
pub open spec fn is_numeral_text(t: Seq<char>) -> bool {
    t.len() > 0 && is_digit_char(t[0]) && (forall|k: int| 0 <= k < t.len() ==> is_num_char(t[k]))
}

/// A run of numeral characters that ends exactly at `j` has `j` as its end.
pub proof fn lemma_num_run_end_at(s: Seq<char>, i: int, j: int)
    requires
        0 <= i <= j <= s.len(),
        forall|k: int| i <= k < j ==> is_num_char(s[k]),
        j == s.len() || !is_num_char(s[j]),
    ensures
        num_run_end(s, i) == j,
    decreases j - i,
{
    if i < j {
        lemma_num_run_end_at(s, i + 1, j);
    }
}

pub proof fn lemma_num_run_end(s: Seq<char>, i: int)
    requires
        0 <= i <= s.len(),
    ensures
        i <= num_run_end(s, i) <= s.len(),
        forall|k: int| i <= k < num_run_end(s, i) ==> is_num_char(s[k]),
        num_run_end(s, i) < s.len() ==> !is_num_char(s[num_run_end(s, i)]),
    decreases s.len() - i,
{
    if i < s.len() && is_num_char(s[i]) {
        lemma_num_run_end(s, i + 1);
    }
}

/// What one pull of the scanner yields on `s` at cursor `i`: the scanned
/// token (`None` marks a scan failure) and the cursor afterwards.
pub struct ScanStep {
    pub tok: Option<TokenView>,
    pub next: int,
}

/// One step of the scanner.  At the end of the input it yields the
/// end-of-stream marker and stays put.  A digit opens a numeral, which
/// greedily takes every following digit or decimal point; a numeral followed
/// directly by `(` is malformed and fails the scan.  The single-character
/// operators and parentheses map to their tokens, and any other character
/// fails the scan.
pub open spec fn spec_scan(s: Seq<char>, i: int) -> ScanStep
    recommends
        0 <= i <= s.len(),
{
    if i >= s.len() {
        ScanStep { tok: Some(TokenView::Eof), next: i }
    } else if is_digit_char(s[i]) {
        let j = num_run_end(s, i + 1);
        if j < s.len() && s[j] == '(' {
            ScanStep { tok: None, next: j }
        } else {
            ScanStep { tok: Some(TokenView::Num(s.subrange(i, j))), next: j }
        }
    } else if s[i] == '+' {
        ScanStep { tok: Some(TokenView::Add), next: i + 1 }
    } else if s[i] == '-' {
        ScanStep { tok: Some(TokenView::Subtract), next: i + 1 }
    } else if s[i] == '*' {
        ScanStep { tok: Some(TokenView::Multiply), next: i + 1 }
    } else if s[i] == '/' {
        ScanStep { tok: Some(TokenView::Divide), next: i + 1 }
    } else if s[i] == '^' {
        ScanStep { tok: Some(TokenView::Caret), next: i + 1 }
    } else if s[i] == '(' {
        ScanStep { tok: Some(TokenView::LeftParen), next: i + 1 }
    } else if s[i] == ')' {
        ScanStep { tok: Some(TokenView::RightParen), next: i + 1 }
    } else {
        ScanStep { tok: None, next: i + 1 }
    }
}

/// The scanner never moves backwards, never leaves the input, and always
/// makes progress while characters remain.
pub proof fn lemma_scan_bounds(s: Seq<char>, i: int)
    requires
        0 <= i <= s.len(),
    ensures
        i <= spec_scan(s, i).next <= s.len(),
        i < s.len() ==> i < spec_scan(s, i).next,
        i == s.len() ==> spec_scan(s, i) == (ScanStep { tok: Some(TokenView::Eof), next: i }),
{
    if i < s.len() && is_digit_char(s[i]) {
        lemma_num_run_end(s, i + 1);
    }
}

/// Pulls tokens off an expression, one at a time, advancing a cursor over
/// its characters.  The caller is expected to have stripped whitespace.
pub struct Tokenizer<'a> {
    expr: &'a str,
    pos: usize,
}

impl<'a> Tokenizer<'a> {
    /// The characters being scanned.
    pub closed spec fn text(&self) -> Seq<char> {
        self.expr@
    }

    /// The cursor: how many characters have been consumed.
    pub closed spec fn position(&self) -> int {
        self.pos as int
    }

    pub open spec fn wf(&self) -> bool {
        0 <= self.position() <= self.text().len()
    }

    /// A fresh scanner over `new_expr`, with the cursor at the start.
    pub fn new(new_expr: &'a str) -> (t: Tokenizer<'a>)
        ensures
            t.text() == new_expr@,
            t.position() == 0,
            t.wf(),
    {
        Tokenizer { expr: new_expr, pos: 0 }
    }

    /// One pull: exactly the step `spec_scan` describes at the current
    /// cursor.  `None` reports a scan failure; the end of the input yields
    /// `Token::EOF`.
    pub fn next(&mut self) -> (r: Option<Token>)
        requires
            old(self).wf(),
        ensures
            final(self).wf(),
            final(self).text() == old(self).text(),
            final(self).position() == spec_scan(old(self).text(), old(self).position()).next,
            (match r {
                Some(t) => spec_scan(old(self).text(), old(self).position()).tok == Some(t@),
                None => spec_scan(old(self).text(), old(self).position()).tok is None,
            }),
    {
        let len = self.expr.unicode_len();
        if self.pos >= len {
            return Some(Token::EOF);
        }
        let c = self.expr.get_char(self.pos);
        if '0' <= c && c <= '9' {
            let start = self.pos;
            proof {
                lemma_num_run_end(self.expr@, start as int + 1);
            }
            let j = numeral_run_end(self.expr, len, start + 1);
            self.pos = j;
            if j < len && self.expr.get_char(j) == '(' {
                return None;
            }
            let text = self.expr.substring_char(start, j);
            Some(Token::NUM(text.to_owned()))
        } else {
            self.pos = self.pos + 1;
            match c {
                '+' => Some(Token::ADD),
                '-' => Some(Token::SUBTRACT),
                '*' => Some(Token::MULTIPLY),
                '/' => Some(Token::DIVIDE),
                '^' => Some(Token::CARET),
                '(' => Some(Token::LEFTPAREN),
                ')' => Some(Token::RIGHTPAREN),
                _ => None,
            }
        }
    }
}

/// Walks to the end of the run of numeral characters that starts at `from`.
fn numeral_run_end(s: &str, len: usize, from: usize) -> (j: usize)
    requires
        len == s@.len(),
        from <= len,
    ensures
        from <= j <= len,
        j as int == num_run_end(s@, from as int),
{
    let mut j = from;
    loop
        invariant_except_break
            from <= j <= len,
            len == s@.len(),
            num_run_end(s@, from as int) == num_run_end(s@, j as int),
        ensures
            from <= j <= len,
            j as int == num_run_end(s@, from as int),
        decreases len - j,
    {
        if j >= len {
            break;
        }
        let d = s.get_char(j);
        if !(('0' <= d && d <= '9') || d == '.') {
            break;
        }
        j = j + 1;
    }
    j
}

} // verus!
