//! What a scan of a source text yields, as spec functions over the
//! source's characters.
use vstd::prelude::*;

use crate::error::{ErrorKind, ScanErrorView};
use crate::token::{TokenType, TokenView};

verus! {

/// The character at `i`, or NUL past either end of the source.
pub open spec fn char_at(s: Seq<char>, i: int) -> char {
    if 0 <= i < s.len() {
        s[i]
    } else {
        '\0'
    }
}

/// The number of `\n` among the first `n` characters.
pub open spec fn newlines(s: Seq<char>, n: int) -> nat
    decreases n,
{
    if n <= 0 {
        0
    } else {
        newlines(s, n - 1) + if char_at(s, n - 1) == '\n' {
            1nat
        } else {
            0nat
        }
    }
}

pub proof fn lemma_newlines_bound(s: Seq<char>, n: int)
    ensures
        newlines(s, n) <= if n < 0 { 0 } else { n },
    decreases n,
{
    if n > 0 {
        lemma_newlines_bound(s, n - 1);
    }
}

/// The line the cursor is on once the first `n` characters are consumed.
pub open spec fn line_at(s: Seq<char>, n: int) -> nat {
    1 + newlines(s, n)
}

/// `s[lo..hi]`, or empty where the bounds are out of order.
pub open spec fn slice(s: Seq<char>, lo: int, hi: int) -> Seq<char> {
    if 0 <= lo <= hi <= s.len() {
        s.subrange(lo, hi)
    } else {
        Seq::empty()
    }
}

/// What a stretch of scanning yields: where the cursor stops, the tokens
/// emitted and the diagnostics reported, in order.
pub struct Scanned {
    pub next: int,
    pub tokens: Seq<TokenView>,
    pub errors: Seq<ScanErrorView>,
}

pub open spec fn token_at(
    s: Seq<char>,
    kind: TokenType,
    start: int,
    end: int,
    literal: Option<Seq<char>>,
) -> TokenView {
    TokenView { kind, lexeme: s.subrange(start, end), literal, line: line_at(s, end) }
}

pub open spec fn error_at(s: Seq<char>, kind: ErrorKind, at: int) -> ScanErrorView {
    ScanErrorView { kind, line: line_at(s, at) }
}

/// The diagnostic of a conditional consume at `i` that failed: one when `i`
/// is past the end, none on a plain mismatch.
pub open spec fn miss_errors(s: Seq<char>, i: int) -> Seq<ScanErrorView> {
    if i >= s.len() {
        seq![error_at(s, ErrorKind::OutOfBounds, i)]
    } else {
        Seq::empty()
    }
}

/// A conditional consume at `i` that failed: the cursor stays.
pub open spec fn missed(s: Seq<char>, i: int) -> Scanned {
    Scanned { next: i, tokens: Seq::empty(), errors: miss_errors(s, i) }
}

/// Where the code-block scan stops: the first position at which one of the
/// current, next or one-after-next characters is a dash, or the end.
pub open spec fn fence_scan_end(s: Seq<char>, i: int) -> int
    decreases s.len() - i,
{
    if i >= s.len() || char_at(s, i) == '-' || char_at(s, i + 1) == '-' || char_at(s, i + 2)
        == '-' {
        i
    } else {
        fence_scan_end(s, i + 1)
    }
}

/// Where an opening tag's name ends: at the first space or `>`, or the end.
pub open spec fn tag_name_end(s: Seq<char>, i: int) -> int
    decreases s.len() - i,
{
    if i >= s.len() || s[i] == ' ' || s[i] == '>' {
        i
    } else {
        tag_name_end(s, i + 1)
    }
}

/// The position of the first `>` from `i` on, or the end.
pub open spec fn closing_scan_end(s: Seq<char>, i: int) -> int
    decreases s.len() - i,
{
    if i >= s.len() || s[i] == '>' {
        i
    } else {
        closing_scan_end(s, i + 1)
    }
}

/// Whether a text run stops before position `i`.
pub open spec fn ends_text(s: Seq<char>, i: int) -> bool {
    s[i] == '>' || s[i] == '<' || (s[i] == '/' && char_at(s, i + 1) == '>') || s[i] == '{'
}

/// Where a text run ends: before `<`, `>`, `/>` or `{`, or at the end.
pub open spec fn text_end(s: Seq<char>, i: int) -> int
    decreases s.len() - i,
{
    if i >= s.len() || ends_text(s, i) {
        i
    } else {
        text_end(s, i + 1)
    }
}

/// Whether an embedded-expression opener "(`" starts at `i`.
pub open spec fn opens_html_expr(s: Seq<char>, i: int) -> bool {
    char_at(s, i) == '(' && char_at(s, i + 1) == '`'
}

/// Where an expression scan from `i` stops: just past the first `}`, before
/// an opener "(`", or at the end, whichever comes first.
pub open spec fn expr_end(s: Seq<char>, i: int) -> int
    decreases s.len() - i,
{
    if i >= s.len() || opens_html_expr(s, i) {
        i
    } else if s[i] == '}' {
        i + 1
    } else {
        expr_end(s, i + 1)
    }
}

/// Whether an expression scan from `i` stops by consuming a `}`.
pub open spec fn expr_closed(s: Seq<char>, i: int) -> bool
    decreases s.len() - i,
{
    if i >= s.len() || opens_html_expr(s, i) {
        false
    } else if s[i] == '}' {
        true
    } else {
        expr_closed(s, i + 1)
    }
}

/// A code block whose opening fence `---` starts at `p`.
pub open spec fn code_block(s: Seq<char>, p: int) -> Scanned {
    let stop = fence_scan_end(s, p + 3);
    let end = if stop + 5 <= s.len() {
        stop + 5
    } else {
        s.len() as int
    };
    let unterminated = if stop >= s.len() {
        seq![error_at(s, ErrorKind::UnterminatedCodeBlock, stop)]
    } else {
        Seq::empty()
    };
    let overrun = Seq::new(
        (stop + 5 - end) as nat,
        |k: int| error_at(s, ErrorKind::OutOfBounds, end),
    );
    Scanned {
        next: end,
        tokens: seq![token_at(s, TokenType::CodeBlock, p, end, Some(slice(s, p + 3, end - 3)))],
        errors: unterminated + overrun,
    }
}

/// An opening tag whose `<` stands at `p`.
pub open spec fn opening_tag_start(s: Seq<char>, p: int) -> Scanned {
    let end = tag_name_end(s, p + 1);
    Scanned {
        next: end,
        tokens: seq![
            token_at(s, TokenType::OpeningTagStart, p, end, Some(s.subrange(p + 1, end))),
        ],
        errors: Seq::empty(),
    }
}

/// A closing tag whose `</` starts at `p`.
pub open spec fn closing_tag(s: Seq<char>, p: int) -> Scanned {
    let stop = closing_scan_end(s, p + 2);
    let end = if stop < s.len() {
        stop + 1
    } else {
        stop
    };
    Scanned {
        next: end,
        tokens: seq![token_at(s, TokenType::ClosingTag, p, end, Some(slice(s, p + 2, end - 1)))],
        errors: miss_errors(s, stop),
    }
}

/// A text run starting at `p`.
pub open spec fn text_token(s: Seq<char>, p: int) -> Scanned {
    let end = text_end(s, p + 1);
    Scanned {
        next: end,
        tokens: seq![token_at(s, TokenType::TextToken, p, end, Some(s.subrange(p, end)))],
        errors: Seq::empty(),
    }
}

/// An expression whose token starts at `start` and whose scan starts at
/// `first`. The literal drops the leading `{` unless the character before
/// `start` is `)`, and always drops the last character consumed.
pub open spec fn expression(s: Seq<char>, start: int, first: int) -> Scanned {
    let end = expr_end(s, first);
    let lo = if start > 0 && s[start - 1] == ')' {
        start
    } else {
        start + 1
    };
    Scanned {
        next: end,
        tokens: seq![token_at(s, TokenType::Expression, start, end, Some(slice(s, lo, end - 1)))],
        errors: if end >= s.len() && !expr_closed(s, first) {
            seq![error_at(s, ErrorKind::UnterminatedExpression, end)]
        } else {
            Seq::empty()
        },
    }
}

/// A token of one of the fixed two-character delimiters, or a failed
/// consume, after the dispatcher took `s[p]`.
pub open spec fn delimiter(s: Seq<char>, p: int, second: char, kind: TokenType) -> Scanned {
    if char_at(s, p + 1) == second {
        Scanned {
            next: p + 2,
            tokens: seq![token_at(s, kind, p, p + 2, None)],
            errors: Seq::empty(),
        }
    } else {
        missed(s, p + 1)
    }
}

/// The closing delimiter "`)" at `p`, and the expression scan that follows it.
pub open spec fn html_expr_end(s: Seq<char>, p: int) -> Scanned {
    if char_at(s, p + 1) == ')' {
        let e = expression(s, p + 2, p + 2);
        Scanned {
            next: e.next,
            tokens: seq![token_at(s, TokenType::HTMLExprEnd, p, p + 2, None)] + e.tokens,
            errors: e.errors,
        }
    } else {
        missed(s, p + 1)
    }
}

/// A dash at `p`: a code block if two more follow.
pub open spec fn dash(s: Seq<char>, p: int) -> Scanned {
    if char_at(s, p + 1) == '-' {
        if char_at(s, p + 2) == '-' {
            code_block(s, p)
        } else {
            missed(s, p + 2)
        }
    } else {
        missed(s, p + 1)
    }
}

/// One round of the dispatch loop, with the cursor at `p`.
pub open spec fn step(s: Seq<char>, p: int) -> Scanned {
    let c = s[p];
    if c == '-' {
        dash(s, p)
    } else if c == '{' {
        expression(s, p, p + 1)
    } else if c == '<' {
        if char_at(s, p + 1) == '/' {
            closing_tag(s, p)
        } else {
            let t = opening_tag_start(s, p);
            Scanned { next: t.next, tokens: t.tokens, errors: miss_errors(s, p + 1) }
        }
    } else if c == '>' {
        Scanned {
            next: p + 1,
            tokens: seq![token_at(s, TokenType::OpeningTagEnd, p, p + 1, None)],
            errors: Seq::empty(),
        }
    } else if c == '/' {
        delimiter(s, p, '>', TokenType::SelfClosingTagEnd)
    } else if c == '(' {
        delimiter(s, p, '`', TokenType::HTMLExprStart)
    } else if c == '`' {
        html_expr_end(s, p)
    } else if c == ' ' || c == '\r' || c == '\t' || c == '\n' {
        Scanned { next: p + 1, tokens: Seq::empty(), errors: Seq::empty() }
    } else {
        text_token(s, p)
    }
}


pub proof fn lemma_fence_scan_end_bounds(s: Seq<char>, i: int)
    requires
        0 <= i <= s.len(),
    ensures
        i <= fence_scan_end(s, i) <= s.len(),
    decreases s.len() - i,
{
    if !(i >= s.len() || char_at(s, i) == '-' || char_at(s, i + 1) == '-' || char_at(s, i + 2)
        == '-') {
        lemma_fence_scan_end_bounds(s, i + 1);
    }
}

pub proof fn lemma_tag_name_end_bounds(s: Seq<char>, i: int)
    requires
        0 <= i <= s.len(),
    ensures
        i <= tag_name_end(s, i) <= s.len(),
    decreases s.len() - i,
{
    if !(i >= s.len() || s[i] == ' ' || s[i] == '>') {
        lemma_tag_name_end_bounds(s, i + 1);
    }
}

pub proof fn lemma_closing_scan_end_bounds(s: Seq<char>, i: int)
    requires
        0 <= i <= s.len(),
    ensures
        i <= closing_scan_end(s, i) <= s.len(),
    decreases s.len() - i,
{
    if !(i >= s.len() || s[i] == '>') {
        lemma_closing_scan_end_bounds(s, i + 1);
    }
}

pub proof fn lemma_text_end_bounds(s: Seq<char>, i: int)
    requires
        0 <= i <= s.len(),
    ensures
        i <= text_end(s, i) <= s.len(),
    decreases s.len() - i,
{
    if !(i >= s.len() || ends_text(s, i)) {
        lemma_text_end_bounds(s, i + 1);
    }
}

pub proof fn lemma_expr_end_bounds(s: Seq<char>, i: int)
    requires
        0 <= i <= s.len(),
    ensures
        i <= expr_end(s, i) <= s.len(),
    decreases s.len() - i,
{
    if !(i >= s.len() || opens_html_expr(s, i) || s[i] == '}') {
        lemma_expr_end_bounds(s, i + 1);
    }
}

/// Each round of the dispatch loop consumes at least one character and
/// never runs past the end.
pub proof fn lemma_step_advances(s: Seq<char>, p: int)
    requires
        0 <= p < s.len(),
    ensures
        p < step(s, p).next <= s.len(),
{
    let c = s[p];
    if c == '-' {
        if char_at(s, p + 1) == '-' && char_at(s, p + 2) == '-' {
            lemma_fence_scan_end_bounds(s, p + 3);
        }
    } else if c == '{' {
        lemma_expr_end_bounds(s, p + 1);
    } else if c == '<' {
        if char_at(s, p + 1) == '/' {
            lemma_closing_scan_end_bounds(s, p + 2);
        } else {
            lemma_tag_name_end_bounds(s, p + 1);
        }
    } else if c == '`' {
        if char_at(s, p + 1) == ')' {
            lemma_expr_end_bounds(s, p + 2);
        }
    } else if c == '>' || c == '/' || c == '(' || c == ' ' || c == '\r' || c == '\t' || c
        == '\n' {
    } else {
        lemma_text_end_bounds(s, p + 1);
    }
}

#[via_fn]
proof fn scan_from_decreases(s: Seq<char>, p: int) {
    if 0 <= p < s.len() {
        lemma_step_advances(s, p);
    }
}

/// Everything the dispatch loop yields from position `p` to the end.
pub open spec fn scan_from(s: Seq<char>, p: int) -> Scanned
    decreases s.len() - p,
    via scan_from_decreases
{
    if p < 0 || p >= s.len() {
        Scanned { next: p, tokens: Seq::empty(), errors: Seq::empty() }
    } else {
        let st = step(s, p);
        let rest = scan_from(s, st.next);
        Scanned { next: rest.next, tokens: st.tokens + rest.tokens, errors: st.errors + rest.errors }
    }
}

/// The token that closes every scan.
pub open spec fn end_of_input(s: Seq<char>) -> TokenView {
    TokenView {
        kind: TokenType::EndOfInput,
        lexeme: Seq::empty(),
        literal: None,
        line: line_at(s, s.len() as int),
    }
}

/// The tokens a scan of `s` yields.
pub open spec fn scan(s: Seq<char>) -> Seq<TokenView> {
    scan_from(s, 0).tokens.push(end_of_input(s))
}

/// The diagnostics a scan of `s` reports.
pub open spec fn scan_errors(s: Seq<char>) -> Seq<ScanErrorView> {
    scan_from(s, 0).errors
}

} // verus!
