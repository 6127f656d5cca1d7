use vstd::prelude::*;

use crate::error::{errors_view, ErrorKind, ScanError, ScanErrorView};
use crate::model::{
    char_at, closing_scan_end, closing_tag, code_block, error_at, expr_closed, expr_end,
    expression, fence_scan_end, lemma_newlines_bound, lemma_step_advances, line_at, missed,
    opening_tag_start, scan, scan_errors, scan_from, slice, step, tag_name_end, text_end,
    text_token, Scanned,
};
use crate::token::{literal_view, tokens_view, Token, TokenType, TokenView};

verus! {

/// A single-pass scanner over one source text.
///
/// The source is decoded once into characters, so that looking ahead and
/// consuming are constant-time. `start` is where the token being scanned
/// began, `current` the next unconsumed character, and `line` the line that
/// `current` stands on.
pub struct Scanner {
    chars: Vec<char>,
    tokens: Vec<Token>,
    errors: Vec<ScanError>,
    start: usize,
    current: usize,
    line: usize,
}

/// Relies on `String::push`: the character is appended at the end.
#[verifier::external_body]
fn push_char(s: &mut String, c: char)
    ensures
        final(s)@ == old(s)@.push(c),
{
    s.push(c);
}

/// Consuming the character at `i`: one step on, or a diagnostic at the end.
pub open spec fn advanced(s: Seq<char>, i: int) -> Scanned {
    if i < s.len() {
        Scanned { next: i + 1, tokens: Seq::empty(), errors: Seq::empty() }
    } else {
        missed(s, i)
    }
}

impl Scanner {
    /// The source text, as characters.
    pub closed spec fn text(&self) -> Seq<char> {
        self.chars@
    }

    /// The tokens emitted so far.
    pub closed spec fn emitted(&self) -> Seq<TokenView> {
        tokens_view(self.tokens@)
    }

    /// The diagnostics reported so far.
    pub closed spec fn reported(&self) -> Seq<ScanErrorView> {
        errors_view(self.errors@)
    }

    pub closed spec fn wf(&self) -> bool {
        &&& self.chars.len() + 3 <= usize::MAX
        &&& self.start <= self.current <= self.chars.len()
        &&& self.line == line_at(self.chars@, self.current as int)
    }

    /// Nothing scanned yet.
    pub closed spec fn is_fresh(&self) -> bool {
        &&& self.tokens.len() == 0
        &&& self.errors.len() == 0
        &&& self.current == 0
    }

    /// `self` is `before` after a stretch of scanning that yielded `st`.
    closed spec fn took(&self, before: &Scanner, st: Scanned) -> bool {
        &&& self.wf()
        &&& self.chars@ == before.chars@
        &&& self.current == st.next
        &&& self.emitted() == before.emitted() + st.tokens
        &&& self.reported() == before.reported() + st.errors
    }

    proof fn lemma_took_chain(&self, mid: &Scanner, before: &Scanner, a: Scanned, b: Scanned)
        requires
            mid.took(before, a),
            self.took(mid, b),
        ensures
            self.took(before, Scanned { next: b.next, tokens: a.tokens + b.tokens, errors: a.errors + b.errors }),
    {
        assert(self.emitted() =~= before.emitted() + (a.tokens + b.tokens));
        assert(self.reported() =~= before.reported() + (a.errors + b.errors));
    }

    pub fn new(source: String) -> (r: Scanner)
        requires
            source@.len() + 3 <= usize::MAX,
        ensures
            r.wf(),
            r.is_fresh(),
            r.text() == source@,
    {
        let mut chars: Vec<char> = Vec::new();
        for c in it: source.as_str().chars()
            invariant
                it.seq() == source@,
                chars@ == source@.take(it.index() as int),
        {
            chars.push(c);
        }
        assert(chars@ =~= source@);
        Scanner { chars, tokens: Vec::new(), errors: Vec::new(), start: 0, current: 0, line: 1 }
    }

    fn is_at_end(&self) -> (r: bool)
        ensures
            r == (self.current >= self.chars.len()),
    {
        self.current >= self.chars.len()
    }

    fn get_nth_char(&self, index: usize) -> (r: Option<char>)
        ensures
            r == (if index < self.chars.len() {
                Some(self.chars@[index as int])
            } else {
                None::<char>
            }),
    {
        if index < self.chars.len() {
            Some(self.chars[index])
        } else {
            None
        }
    }

    /// The character `ahead` places past the cursor, or NUL past the end.
    fn peek_at(&self, ahead: usize) -> (r: char)
        requires
            self.wf(),
            ahead <= 2,
        ensures
            r == char_at(self.chars@, self.current + ahead),
    {
        match self.get_nth_char(self.current + ahead) {
            Some(c) => c,
            None => '\0',
        }
    }

    fn peek(&self) -> (r: char)
        requires
            self.wf(),
        ensures
            r == char_at(self.chars@, self.current as int),
    {
        self.peek_at(0)
    }

    fn peek_next(&self) -> (r: char)
        requires
            self.wf(),
        ensures
            r == char_at(self.chars@, self.current + 1),
    {
        self.peek_at(1)
    }

    fn peek_third(&self) -> (r: char)
        requires
            self.wf(),
        ensures
            r == char_at(self.chars@, self.current + 2),
    {
        self.peek_at(2)
    }

    fn report(&mut self, kind: ErrorKind)
        requires
            old(self).wf(),
        ensures
            final(self).took(old(self), Scanned {
                next: old(self).current as int,
                tokens: Seq::empty(),
                errors: seq![error_at(old(self).chars@, kind, old(self).current as int)],
            }),
            final(self).start == old(self).start,
    {
        self.errors.push(ScanError { kind, line: self.line });
        assert(self.emitted() =~= old(self).emitted() + Seq::empty());
        assert(self.reported() =~= old(self).reported() + seq![error_at(old(self).chars@, kind, old(self).current as int)]);
    }

    /// Consumes one character and returns it; at the end, reports the
    /// overrun and returns NUL.
    fn advance(&mut self) -> (c: char)
        requires
            old(self).wf(),
        ensures
            final(self).took(old(self), advanced(old(self).chars@, old(self).current as int)),
            final(self).start == old(self).start,
            c == char_at(old(self).chars@, old(self).current as int),
    {
        if self.current < self.chars.len() {
            let c = self.chars[self.current];
            self.current = self.current + 1;
            proof {
                lemma_newlines_bound(self.chars@, old(self).current as int);
            }
            if c == '\n' {
                self.line = self.line + 1;
            }
            assert(self.emitted() =~= old(self).emitted() + Seq::empty());
            assert(self.reported() =~= old(self).reported() + Seq::empty());
            c
        } else {
            self.report(ErrorKind::OutOfBounds);
            '\0'
        }
    }

    /// Consumes the next character if it is `expected`.
    fn match_char(&mut self, expected: char) -> (r: bool)
        requires
            old(self).wf(),
        ensures
            r == (old(self).current < old(self).chars.len() && old(self).chars@[old(self).current as int] == expected),
            final(self).took(old(self), if r {
                advanced(old(self).chars@, old(self).current as int)
            } else {
                missed(old(self).chars@, old(self).current as int)
            }),
            final(self).start == old(self).start,
    {
        if self.is_at_end() {
            self.report(ErrorKind::OutOfBounds);
            return false;
        }
        if self.chars[self.current] != expected {
            assert(self.emitted() =~= old(self).emitted() + Seq::empty());
            assert(self.reported() =~= old(self).reported() + Seq::empty());
            return false;
        }
        self.advance();
        true
    }

    /// The text `s[lo..hi]`, or empty where the bounds are out of order.
    fn slice_text(&self, lo: usize, hi: usize) -> (r: String)
        requires
            self.wf(),
        ensures
            r@ == slice(self.chars@, lo as int, hi as int),
    {
        let mut r = String::new();
        if lo <= hi && hi <= self.chars.len() {
            let mut i: usize = lo;
            while i < hi
                invariant
                    lo <= i <= hi <= self.chars.len(),
                    r@ == self.chars@.subrange(lo as int, i as int),
                decreases hi - i,
            {
                push_char(&mut r, self.chars[i]);
                i = i + 1;
                assert(r@ =~= self.chars@.subrange(lo as int, i as int));
            }
        }
        r
    }

    /// Emits a token over `start..current`.
    fn add_token(&mut self, token_type: TokenType, literal: Option<String>)
        requires
            old(self).wf(),
        ensures
            final(self).took(old(self), Scanned {
                next: old(self).current as int,
                tokens: seq![TokenView {
                    kind: token_type,
                    lexeme: old(self).chars@.subrange(old(self).start as int, old(self).current as int),
                    literal: literal_view(literal),
                    line: line_at(old(self).chars@, old(self).current as int),
                }],
                errors: Seq::empty(),
            }),
            final(self).start == old(self).start,
    {
        let lexeme = self.slice_text(self.start, self.current);
        self.tokens.push(Token { token_type, lexeme, literal, line: self.line });
        assert(self.emitted() =~= old(self).emitted() + seq![self.tokens@.last()@]);
        assert(self.reported() =~= old(self).reported() + Seq::empty());
    }
    /// A code block: the opening fence `---` was just consumed.
    fn code_block(&mut self)
        requires
            old(self).wf(),
            old(self).current == old(self).start + 3,
        ensures
            final(self).took(old(self), code_block(old(self).chars@, old(self).start as int)),
            final(self).start == old(self).start,
    {
        let ghost s = self.chars@;
        let ghost p = self.start as int;
        let ghost stop = fence_scan_end(s, p + 3);
        let ghost base = self.reported();
        while !self.is_at_end() && self.peek() != '-' && self.peek_next() != '-'
            && self.peek_third() != '-'
            invariant
                self.wf(),
                self.chars@ == s,
                self.start == p,
                p + 3 <= self.current,
                fence_scan_end(s, self.current as int) == stop,
                self.emitted() == old(self).emitted(),
                self.reported() == base,
            decreases s.len() - self.current,
        {
            self.advance();
            assert(self.reported() =~= base);
            assert(self.emitted() =~= old(self).emitted());
        }
        if self.is_at_end() {
            self.report(ErrorKind::UnterminatedCodeBlock);
        }
        let ghost base = self.reported();
        // past the closing fence and the characters that border it
        let mut k: usize = 0;
        while k < 5
            invariant
                self.wf(),
                self.chars@ == s,
                self.start == p,
                k <= 5,
                self.current == (if stop + k <= s.len() { stop + k } else { s.len() as int }),
                self.emitted() == old(self).emitted(),
                self.reported() == base + Seq::new(
                    (stop + k - self.current) as nat,
                    |j: int| error_at(s, ErrorKind::OutOfBounds, self.current as int),
                ),
            decreases 5 - k,
        {
            self.advance();
            k = k + 1;
            assert(self.reported() =~= base + Seq::new(
                (stop + k - self.current) as nat,
                |j: int| error_at(s, ErrorKind::OutOfBounds, self.current as int),
            ));
            assert(self.emitted() =~= old(self).emitted());
        }
        let value = self.slice_text(self.start + 3, self.current - 3);
        self.add_token(TokenType::CodeBlock, Some(value));
        assert(self.emitted() =~= old(self).emitted() + code_block(s, p).tokens);
        assert(self.reported() =~= old(self).reported() + code_block(s, p).errors);
    }
    /// An opening tag: its `<` was just consumed. The name runs up to a
    /// space or `>`.
    fn opening_tag_start(&mut self)
        requires
            old(self).wf(),
            old(self).current == old(self).start + 1,
        ensures
            final(self).took(old(self), opening_tag_start(old(self).chars@, old(self).start as int)),
            final(self).start == old(self).start,
    {
        let ghost s = self.chars@;
        let ghost p = self.start as int;
        while !self.is_at_end() && self.peek() != ' ' && self.peek() != '>'
            invariant
                self.wf(),
                self.chars@ == s,
                self.start == p,
                p + 1 <= self.current,
                tag_name_end(s, self.current as int) == tag_name_end(s, p + 1),
                self.emitted() == old(self).emitted(),
                self.reported() == old(self).reported(),
            decreases s.len() - self.current,
        {
            self.advance();
            assert(self.reported() =~= old(self).reported());
            assert(self.emitted() =~= old(self).emitted());
        }
        let value = self.slice_text(self.start + 1, self.current);
        self.add_token(TokenType::OpeningTagStart, Some(value));
        assert(self.emitted() =~= old(self).emitted() + opening_tag_start(s, p).tokens);
        assert(self.reported() =~= old(self).reported() + opening_tag_start(s, p).errors);
    }

    /// A closing tag: its `</` was just consumed. The name runs up to `>`,
    /// which is consumed too.
    fn closing_tag(&mut self)
        requires
            old(self).wf(),
            old(self).current == old(self).start + 2,
        ensures
            final(self).took(old(self), closing_tag(old(self).chars@, old(self).start as int)),
            final(self).start == old(self).start,
    {
        let ghost s = self.chars@;
        let ghost p = self.start as int;
        while !self.is_at_end() && self.peek() != '>'
            invariant
                self.wf(),
                self.chars@ == s,
                self.start == p,
                p + 2 <= self.current,
                closing_scan_end(s, self.current as int) == closing_scan_end(s, p + 2),
                self.emitted() == old(self).emitted(),
                self.reported() == old(self).reported(),
            decreases s.len() - self.current,
        {
            self.advance();
            assert(self.reported() =~= old(self).reported());
            assert(self.emitted() =~= old(self).emitted());
        }
        self.advance();
        let value = self.slice_text(self.start + 2, self.current - 1);
        self.add_token(TokenType::ClosingTag, Some(value));
        assert(self.emitted() =~= old(self).emitted() + closing_tag(s, p).tokens);
        assert(self.reported() =~= old(self).reported() + closing_tag(s, p).errors);
    }

    /// A text run: its first character was just consumed. It runs up to
    /// `<`, `>`, `/>` or `{`, none of which it consumes.
    fn text_token(&mut self)
        requires
            old(self).wf(),
            old(self).current == old(self).start + 1,
        ensures
            final(self).took(old(self), text_token(old(self).chars@, old(self).start as int)),
            final(self).start == old(self).start,
    {
        let ghost s = self.chars@;
        let ghost p = self.start as int;
        while !self.is_at_end() && !(self.peek() == '>' || self.peek() == '<' || (self.peek() == '/'
            && self.peek_next() == '>') || self.peek() == '{')
            invariant
                self.wf(),
                self.chars@ == s,
                self.start == p,
                p + 1 <= self.current,
                text_end(s, self.current as int) == text_end(s, p + 1),
                self.emitted() == old(self).emitted(),
                self.reported() == old(self).reported(),
            decreases s.len() - self.current,
        {
            self.advance();
            assert(self.reported() =~= old(self).reported());
            assert(self.emitted() =~= old(self).emitted());
        }
        let value = self.slice_text(self.start, self.current);
        self.add_token(TokenType::TextToken, Some(value));
        assert(self.emitted() =~= old(self).emitted() + text_token(s, p).tokens);
        assert(self.reported() =~= old(self).reported() + text_token(s, p).errors);
    }

    /// An expression, scanned from the cursor: up to and including the
    /// first `}`, or up to an opener "(`", or to the end.
    fn expression(&mut self)
        requires
            old(self).wf(),
            old(self).current == old(self).start + 1 || old(self).current == old(self).start > 0,
        ensures
            final(self).took(old(self), expression(old(self).chars@, old(self).start as int, old(self).current as int)),
            final(self).start == old(self).start,
    {
        let ghost s = self.chars@;
        let ghost p = self.start as int;
        let ghost first = self.current as int;
        let mut closed = false;
        loop
            invariant_except_break
                !closed,
                expr_end(s, self.current as int) == expr_end(s, first),
                expr_closed(s, self.current as int) == expr_closed(s, first),
            invariant
                self.wf(),
                self.chars@ == s,
                self.start == p,
                first <= self.current,
                self.emitted() == old(self).emitted(),
                self.reported() == old(self).reported(),
            ensures
                self.wf(),
                self.chars@ == s,
                self.start == p,
                first <= self.current,
                self.current == expr_end(s, first),
                closed == expr_closed(s, first),
                self.emitted() == old(self).emitted(),
                self.reported() == old(self).reported(),
            decreases s.len() - self.current,
        {
            if self.is_at_end() || (self.peek() == '(' && self.peek_next() == '`') {
                break;
            }
            let c = self.advance();
            assert(self.reported() =~= old(self).reported());
            assert(self.emitted() =~= old(self).emitted());
            if c == '}' {
                closed = true;
                break;
            }
        }
        if self.is_at_end() && !closed {
            self.report(ErrorKind::UnterminatedExpression);
        }
        let after_close = self.start > 0 && match self.get_nth_char(self.start - 1) {
            Some(c) => c == ')',
            None => false,
        };
        let value = if after_close {
            self.slice_text(self.start, self.current - 1)
        } else {
            self.slice_text(self.start + 1, self.current - 1)
        };
        self.add_token(TokenType::Expression, Some(value));
        assert(self.emitted() =~= old(self).emitted() + expression(s, p, first).tokens);
        assert(self.reported() =~= old(self).reported() + expression(s, p, first).errors);
    }
    /// One round of the dispatch loop: consumes the character at the
    /// cursor and whatever the rule it selects goes on to consume.
    fn scan_token(&mut self)
        requires
            old(self).wf(),
            old(self).current == old(self).start,
            old(self).current < old(self).chars.len(),
        ensures
            final(self).took(old(self), step(old(self).chars@, old(self).current as int)),
    {
        let ghost s = self.chars@;
        let ghost p = self.current as int;
        let ghost s0 = *self;
        let c = self.advance();
        let ghost s1 = *self;
        if c == '-' {
            if self.match_char('-') {
                let ghost s2 = *self;
                if self.match_char('-') {
                    let ghost s3 = *self;
                    self.code_block();
                    proof {
                        s2.lemma_took_chain(&s1, &s0, advanced(s, p), advanced(s, p + 1));
                        s3.lemma_took_chain(&s2, &s0, advanced(s, p + 1) , advanced(s, p + 2));
                    }
                } else {
                    proof {
                        s2.lemma_took_chain(&s1, &s0, advanced(s, p), advanced(s, p + 1));
                    }
                }
            }
        } else if c == '{' {
            self.expression();
        } else if c == '<' {
            if self.match_char('/') {
                self.closing_tag();
            } else {
                self.opening_tag_start();
            }
        } else if c == '>' {
            self.add_token(TokenType::OpeningTagEnd, None);
        } else if c == '/' {
            if self.match_char('>') {
                self.add_token(TokenType::SelfClosingTagEnd, None);
            }
        } else if c == '(' {
            if self.match_char('`') {
                self.add_token(TokenType::HTMLExprStart, None);
            }
        } else if c == '`' {
            if self.match_char(')') {
                self.add_token(TokenType::HTMLExprEnd, None);
                self.start = self.start + 2;
                self.expression();
            }
        } else if c == ' ' || c == '\r' || c == '\t' || c == '\n' {
        } else {
            self.text_token();
        }
        proof {
            let st = step(s, p);
            assert(self.emitted() =~= s0.emitted() + st.tokens);
            assert(self.reported() =~= s0.reported() + st.errors);
        }
    }

    /// Scans the whole source and returns the tokens, the last of which is
    /// always the single `EndOfInput`. The diagnostics met on the way are
    /// then available from `errors`.
    pub fn scan_tokens(&mut self) -> (r: &Vec<Token>)
        requires
            old(self).wf(),
            old(self).is_fresh(),
        ensures
            final(self).wf(),
            final(self).text() == old(self).text(),
            tokens_view(r@) == scan(old(self).text()),
            final(self).emitted() == scan(old(self).text()),
            final(self).reported() == scan_errors(old(self).text()),
    {
        let ghost s = self.chars@;
        assert(self.emitted() =~= Seq::empty());
        assert(self.reported() =~= Seq::empty());
        while !self.is_at_end()
            invariant
                self.wf(),
                self.chars@ == s,
                self.emitted() + scan_from(s, self.current as int).tokens == scan_from(s, 0).tokens,
                self.reported() + scan_from(s, self.current as int).errors == scan_from(s, 0).errors,
            decreases s.len() - self.current,
        {
            self.start = self.current;
            let ghost before = *self;
            proof {
                lemma_step_advances(s, self.current as int);
            }
            self.scan_token();
            proof {
                let st = step(s, before.current as int);
                assert(scan_from(s, before.current as int).tokens == st.tokens + scan_from(s, st.next).tokens);
                assert(self.emitted() + scan_from(s, self.current as int).tokens =~= before.emitted() + scan_from(s, before.current as int).tokens);
                assert(self.reported() + scan_from(s, self.current as int).errors =~= before.reported() + scan_from(s, before.current as int).errors);
            }
        }
        assert(self.emitted() =~= scan_from(s, 0).tokens);
        assert(self.reported() =~= scan_from(s, 0).errors);
        let end = Token {
            token_type: TokenType::EndOfInput,
            lexeme: String::new(),
            literal: None,
            line: self.line,
        };
        self.tokens.push(end);
        assert(self.emitted() =~= scan(s));
        &self.tokens
    }

    /// The diagnostics reported so far.
    pub fn errors(&self) -> (r: &Vec<ScanError>)
        ensures
            errors_view(r@) == self.reported(),
    {
        &self.errors
    }
}

/// Scans `source` with a fresh scanner and hands back the tokens together
/// with the diagnostics reported on the way.
pub fn tokenize(source: String) -> (r: (Vec<Token>, Vec<ScanError>))
    requires
        source@.len() + 3 <= usize::MAX,
    ensures
        tokens_view(r.0@) == scan(source@),
        errors_view(r.1@) == scan_errors(source@),
{
    let mut scanner = Scanner::new(source);
    scanner.scan_tokens();
    (scanner.tokens, scanner.errors)
}

} // verus!
