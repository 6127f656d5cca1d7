//! Properties of every scan, proved over the model that the scanner is
//! shown to follow.
use vstd::prelude::*;

use crate::model::{
    char_at, end_of_input, expr_end, fence_scan_end, lemma_closing_scan_end_bounds,
    lemma_expr_end_bounds, lemma_fence_scan_end_bounds, lemma_step_advances,
    lemma_tag_name_end_bounds, lemma_text_end_bounds, newlines, scan, scan_from, step,
};
use crate::token::{TokenType, TokenView};

verus! {

proof fn lemma_step_has_no_end_of_input(s: Seq<char>, p: int)
    requires
        0 <= p < s.len(),
    ensures
        forall|i: int|
            0 <= i < step(s, p).tokens.len() ==> step(s, p).tokens[i].kind
                != TokenType::EndOfInput,
{
}

proof fn lemma_scan_from_has_no_end_of_input(s: Seq<char>, p: int)
    requires
        0 <= p <= s.len(),
    ensures
        forall|i: int|
            0 <= i < scan_from(s, p).tokens.len() ==> scan_from(s, p).tokens[i].kind
                != TokenType::EndOfInput,
    decreases s.len() - p,
{
    if p < s.len() {
        let st = step(s, p);
        lemma_step_advances(s, p);
        lemma_step_has_no_end_of_input(s, p);
        lemma_scan_from_has_no_end_of_input(s, st.next);
        let ts = scan_from(s, p).tokens;
        assert forall|i: int| 0 <= i < ts.len() implies ts[i].kind != TokenType::EndOfInput by {
            if i < st.tokens.len() {
                assert(ts[i] == st.tokens[i]);
            } else {
                assert(ts[i] == scan_from(s, st.next).tokens[i - st.tokens.len()]);
            }
        }
    }
}

/// Every scan ends with an `EndOfInput` token whose lexeme is empty, and no
/// other token of the scan is an `EndOfInput`.
pub proof fn lemma_end_of_input_last_and_only(s: Seq<char>)
    ensures
        scan(s).len() >= 1,
        scan(s).last().kind == TokenType::EndOfInput,
        scan(s).last().lexeme.len() == 0,
        forall|i: int| 0 <= i < scan(s).len() - 1 ==> scan(s)[i].kind != TokenType::EndOfInput,
{
    lemma_scan_from_has_no_end_of_input(s, 0);
    let ts = scan_from(s, 0).tokens;
    assert forall|i: int| 0 <= i < scan(s).len() - 1 implies scan(s)[i].kind
        != TokenType::EndOfInput by {
        assert(scan(s)[i] == ts[i]);
    }
}

/// Token `t` was emitted with the cursor at `e`: its lexeme is the text just
/// before `e`, and its line is one more than the newlines consumed before `e`.
pub open spec fn emitted_at(s: Seq<char>, t: TokenView, e: int) -> bool {
    &&& t.lexeme.len() <= e <= s.len()
    &&& t.lexeme == s.subrange(e - t.lexeme.len(), e)
    &&& t.line == 1 + newlines(s, e)
}

pub open spec fn placed(s: Seq<char>, ts: Seq<TokenView>, points: Seq<int>, lo: int, hi: int) -> bool {
    &&& points.len() == ts.len()
    &&& forall|i: int| 0 <= i < ts.len() ==> emitted_at(s, #[trigger] ts[i], points[i])
    &&& forall|i: int| 0 <= i < ts.len() ==> lo <= #[trigger] points[i] <= hi
    &&& forall|i: int, j: int| 0 <= i <= j < ts.len() ==> points[i] <= points[j]
}

proof fn lemma_step_points(s: Seq<char>, p: int) -> (points: Seq<int>)
    requires
        0 <= p < s.len(),
    ensures
        placed(s, step(s, p).tokens, points, p, step(s, p).next),
{
    let st = step(s, p);
    lemma_step_advances(s, p);
    let c = s[p];
    if c == '-' {
        if char_at(s, p + 1) == '-' && char_at(s, p + 2) == '-' {
            lemma_fence_scan_end_bounds(s, p + 3);
        }
    } else if c == '{' {
        lemma_expr_end_bounds(s, p + 1);
    } else if c == '<' {
        if char_at(s, p + 1) == '/' {
            lemma_closing_scan_end_bounds(s, p + 2);
        } else {
            lemma_tag_name_end_bounds(s, p + 1);
        }
    } else if c == '`' {
        if char_at(s, p + 1) == ')' {
            lemma_expr_end_bounds(s, p + 2);
            let points = seq![p + 2, st.next];
            assert(emitted_at(s, st.tokens[0], points[0]));
            assert(emitted_at(s, st.tokens[1], points[1]));
            return points;
        }
    } else if c == '>' || c == '/' || c == '(' || c == ' ' || c == '\r' || c == '\t' || c
        == '\n' {
    } else {
        lemma_text_end_bounds(s, p + 1);
    }
    if st.tokens.len() == 0 {
        Seq::empty()
    } else {
        let points = seq![st.next];
        assert(emitted_at(s, st.tokens[0], points[0]));
        points
    }
}

proof fn lemma_scan_from_points(s: Seq<char>, p: int) -> (points: Seq<int>)
    requires
        0 <= p <= s.len(),
    ensures
        placed(s, scan_from(s, p).tokens, points, p, s.len() as int),
    decreases s.len() - p,
{
    if p == s.len() {
        Seq::empty()
    } else {
        let st = step(s, p);
        lemma_step_advances(s, p);
        let first = lemma_step_points(s, p);
        let rest = lemma_scan_from_points(s, st.next);
        let ts = scan_from(s, p).tokens;
        let points = first + rest;
        let n = st.tokens.len();
        assert forall|i: int| 0 <= i < ts.len() implies emitted_at(s, #[trigger] ts[i], points[i])
            && p <= points[i] <= s.len() by {
            if i < n {
                assert(ts[i] == st.tokens[i] && points[i] == first[i]);
            } else {
                assert(ts[i] == scan_from(s, st.next).tokens[i - n] && points[i] == rest[i - n]);
            }
        }
        assert forall|i: int, j: int| 0 <= i <= j < ts.len() implies points[i] <= points[j] by {
            if j < n {
                assert(points[i] == first[i] && points[j] == first[j]);
            } else if i >= n {
                assert(points[i] == rest[i - n] && points[j] == rest[j - n]);
            } else {
                assert(points[i] == first[i] && points[j] == rest[j - n]);
            }
        }
        points
    }
}

/// Line numbers count newlines: each token of a scan can be given the
/// cursor position at which it was emitted, these positions never go back,
/// the last is the end of the input, and at each of them the token's lexeme
/// is the text just consumed and its line is 1 plus the number of `\n`
/// characters before that position.
pub proof fn lemma_lines_count_newlines(s: Seq<char>) -> (points: Seq<int>)
    ensures
        placed(s, scan(s), points, 0, s.len() as int),
        points.last() == s.len(),
{
    let body = lemma_scan_from_points(s, 0);
    let ts = scan(s);
    let points = body.push(s.len() as int);
    let n = body.len();
    assert(s.subrange(s.len() as int, s.len() as int) =~= Seq::<char>::empty());
    assert forall|i: int| 0 <= i < ts.len() implies emitted_at(s, #[trigger] ts[i], points[i])
        && 0 <= points[i] <= s.len() by {
        if i < n {
            assert(ts[i] == scan_from(s, 0).tokens[i] && points[i] == body[i]);
        }
    }
    assert forall|i: int, j: int| 0 <= i <= j < ts.len() implies points[i] <= points[j] by {
        if j < n {
            assert(points[i] == body[i] && points[j] == body[j]);
        } else if i < n {
            assert(points[i] == body[i]);
        }
    }
    points
}

/// The three-dash fence that opens and closes a frontmatter block.
pub open spec fn fence() -> Seq<char> {
    seq!['-', '-', '-']
}

proof fn lemma_fence_scan_reaches_closing(s: Seq<char>, body: Seq<char>, i: int)
    requires
        s == fence() + body + fence(),
        body.len() >= 2,
        !body.contains('-'),
        3 <= i <= body.len() + 1,
    ensures
        fence_scan_end(s, i) == body.len() + 1,
    decreases body.len() + 1 - i,
{
    if i < body.len() + 1 {
        assert(s[i] == body[i - 3] && s[i + 1] == body[i - 2] && s[i + 2] == body[i - 1]);
        if s[i] == '-' || s[i + 1] == '-' || s[i + 2] == '-' {
            assert(body.contains('-'));
        }
        lemma_fence_scan_reaches_closing(s, body, i + 1);
    } else {
        assert(s[i + 2] == '-');
    }
}

/// A frontmatter block `---` + body + `---` scans to exactly one
/// `CodeBlock`, covering the whole input, whose literal is the body, and the
/// closing `EndOfInput`. This holds for every body that has no dash, and
/// for every body of at most one character.
pub proof fn lemma_frontmatter_block(body: Seq<char>)
    requires
        body.len() <= 1 || !body.contains('-'),
    ensures
        scan(fence() + body + fence()).len() == 2,
        scan(fence() + body + fence())[0].kind == TokenType::CodeBlock,
        scan(fence() + body + fence())[0].lexeme == fence() + body + fence(),
        scan(fence() + body + fence())[0].literal == Some(body),
        scan(fence() + body + fence())[1].kind == TokenType::EndOfInput,
{
    let s = fence() + body + fence();
    let m = body.len() as int;
    assert(s[0] == '-' && s[1] == '-' && s[2] == '-');
    assert(s[m + 3] == '-');
    if m >= 2 {
        lemma_fence_scan_reaches_closing(s, body, 3);
    } else {
        assert(char_at(s, 4) == '-');
    }
    let st = step(s, 0);
    assert(st.next == s.len());
    assert(scan_from(s, s.len() as int).tokens.len() == 0);
    assert(scan_from(s, 0).tokens =~= st.tokens);
    assert(s.subrange(3, m + 3) =~= body);
    assert(s.subrange(0, s.len() as int) =~= s);
}

/// The literal that the expression scan after "`)" gives a lexeme: all of
/// it but the last character, the `}` that closed it.
pub open spec fn continued_literal(lexeme: Seq<char>) -> Seq<char> {
    if lexeme.len() == 0 {
        lexeme
    } else {
        lexeme.drop_last()
    }
}

/// If `ts[i]` is an `HTMLExprEnd`, it is "`)" and is directly followed by
/// the `Expression` that continues the scan.
pub open spec fn continues_at(ts: Seq<TokenView>, i: int) -> bool {
    ts[i].kind == TokenType::HTMLExprEnd ==> {
        &&& ts[i].lexeme == seq!['`', ')']
        &&& i + 1 < ts.len()
        &&& ts[i + 1].kind == TokenType::Expression
        &&& ts[i + 1].literal == Some(continued_literal(ts[i + 1].lexeme))
    }
}

pub open spec fn continues_after_html_expr(ts: Seq<TokenView>) -> bool {
    forall|i: int| 0 <= i < ts.len() ==> #[trigger] continues_at(ts, i)
}

proof fn lemma_step_continues(s: Seq<char>, p: int)
    requires
        0 <= p < s.len(),
    ensures
        continues_after_html_expr(step(s, p).tokens),
{
    let st = step(s, p);
    if s[p] == '`' && char_at(s, p + 1) == ')' {
        lemma_expr_end_bounds(s, p + 2);
        let e = expr_end(s, p + 2);
        let x = st.tokens[1];
        assert(x.lexeme == s.subrange(p + 2, e));
        if e > p + 2 {
            assert(s.subrange(p + 2, e - 1) =~= s.subrange(p + 2, e).drop_last());
        } else {
            assert(x.lexeme =~= Seq::<char>::empty());
        }
        assert(x.literal == Some(continued_literal(x.lexeme)));
        assert(s.subrange(p, p + 2) =~= seq!['`', ')']);
        assert(continues_at(st.tokens, 0));
        assert(continues_at(st.tokens, 1));
    } else {
        assert(st.tokens.len() <= 1);
        if st.tokens.len() == 1 {
            assert(st.tokens[0].kind != TokenType::HTMLExprEnd);
            assert(continues_at(st.tokens, 0));
        }
    }
}

proof fn lemma_continues_concat(a: Seq<TokenView>, b: Seq<TokenView>)
    requires
        continues_after_html_expr(a),
        continues_after_html_expr(b),
    ensures
        continues_after_html_expr(a + b),
{
    let ts = a + b;
    assert forall|i: int| 0 <= i < ts.len() implies #[trigger] continues_at(ts, i) by {
        if i < a.len() {
            assert(continues_at(a, i));
            assert(ts[i] == a[i]);
            if i + 1 < a.len() {
                assert(ts[i + 1] == a[i + 1]);
            }
        } else {
            assert(continues_at(b, i - a.len()));
            assert(ts[i] == b[i - a.len()]);
            if i + 1 < ts.len() {
                assert(ts[i + 1] == b[i + 1 - a.len()]);
            }
        }
    }
}

proof fn lemma_scan_from_continues(s: Seq<char>, p: int)
    requires
        0 <= p <= s.len(),
    ensures
        continues_after_html_expr(scan_from(s, p).tokens),
    decreases s.len() - p,
{
    if p < s.len() {
        let st = step(s, p);
        lemma_step_advances(s, p);
        lemma_step_continues(s, p);
        lemma_scan_from_continues(s, st.next);
        lemma_continues_concat(st.tokens, scan_from(s, st.next).tokens);
    }
}

/// The closing delimiter "`)" of an embedded sub-template yields an
/// `HTMLExprEnd`, and the scan then goes straight on with an expression: the
/// next token is always an `Expression`, whose literal is the text after
/// the delimiter up to the `}` that closes it.
pub proof fn lemma_html_expr_end_continues(s: Seq<char>)
    ensures
        continues_after_html_expr(scan(s)),
{
    lemma_scan_from_continues(s, 0);
    let end = seq![end_of_input(s)];
    assert(continues_at(end, 0));
    lemma_continues_concat(scan_from(s, 0).tokens, end);
    assert(scan(s) =~= scan_from(s, 0).tokens + end);
}

} // verus!
