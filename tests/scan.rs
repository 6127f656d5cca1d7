use regg::error::{ErrorKind, ScanError};
use regg::scanner::{tokenize, Scanner};
use regg::token::{Token, TokenType};

fn scan_all(source: &str) -> (Vec<Token>, Vec<ScanError>) {
    let mut scanner = Scanner::new(source.to_string());
    let tokens = scanner.scan_tokens().clone();
    let errors = scanner.errors().clone();
    (tokens, errors)
}

fn kinds(tokens: &[Token]) -> Vec<TokenType> {
    tokens.iter().map(|t| t.token_type).collect()
}

fn literal(t: &Token) -> Option<&str> {
    t.literal.as_deref()
}

fn check_end_of_input(tokens: &[Token]) {
    let last = tokens.last().expect("a scan always yields a token");
    assert_eq!(last.token_type, TokenType::EndOfInput);
    assert_eq!(last.lexeme, "");
    assert_eq!(last.literal, None);
    let count = tokens.iter().filter(|t| t.token_type == TokenType::EndOfInput).count();
    assert_eq!(count, 1);
}

#[test]
fn end_of_input_is_last_and_only() {
    for source in ["", "   ", "<div>hello</div>", "{abc", "---abc", "<", "`)x}", "--x", "a\nb"] {
        let (tokens, _) = scan_all(source);
        check_end_of_input(&tokens);
    }
}

#[test]
fn empty_input_yields_only_end_of_input() {
    let (tokens, errors) = scan_all("");
    assert_eq!(kinds(&tokens), vec![TokenType::EndOfInput]);
    assert_eq!(tokens[0].line, 1);
    assert!(errors.is_empty());
}

#[test]
fn element_with_text() {
    let (tokens, errors) = scan_all("<div>hello</div>");
    assert_eq!(
        kinds(&tokens),
        vec![
            TokenType::OpeningTagStart,
            TokenType::OpeningTagEnd,
            TokenType::TextToken,
            TokenType::ClosingTag,
            TokenType::EndOfInput,
        ]
    );
    assert_eq!(literal(&tokens[0]), Some("div"));
    assert_eq!(tokens[0].lexeme, "<div");
    assert_eq!(literal(&tokens[1]), None);
    assert_eq!(tokens[1].lexeme, ">");
    assert_eq!(literal(&tokens[2]), Some("hello"));
    assert_eq!(literal(&tokens[3]), Some("div"));
    assert_eq!(tokens[3].lexeme, "</div>");
    assert!(errors.is_empty());
}

#[test]
fn self_closing_tag_after_space() {
    let (tokens, errors) = scan_all("<br />");
    assert_eq!(
        kinds(&tokens),
        vec![TokenType::OpeningTagStart, TokenType::SelfClosingTagEnd, TokenType::EndOfInput]
    );
    assert_eq!(literal(&tokens[0]), Some("br"));
    assert_eq!(tokens[1].lexeme, "/>");
    assert_eq!(literal(&tokens[1]), None);
    assert!(errors.is_empty());
}

#[test]
fn self_closing_tag_without_space_keeps_slash_in_name() {
    let (tokens, _) = scan_all("<br/>");
    assert_eq!(
        kinds(&tokens),
        vec![TokenType::OpeningTagStart, TokenType::OpeningTagEnd, TokenType::EndOfInput]
    );
    assert_eq!(literal(&tokens[0]), Some("br/"));
}

#[test]
fn simple_expression() {
    let (tokens, errors) = scan_all("{count}");
    assert_eq!(kinds(&tokens), vec![TokenType::Expression, TokenType::EndOfInput]);
    assert_eq!(literal(&tokens[0]), Some("count"));
    assert_eq!(tokens[0].lexeme, "{count}");
    assert!(errors.is_empty());
}

#[test]
fn extra_closing_brace_is_text() {
    let (tokens, _) = scan_all("{a}}");
    assert_eq!(
        kinds(&tokens),
        vec![TokenType::Expression, TokenType::TextToken, TokenType::EndOfInput]
    );
    assert_eq!(literal(&tokens[0]), Some("a"));
    assert_eq!(literal(&tokens[1]), Some("}"));
}

#[test]
fn expression_after_parenthesis_keeps_brace() {
    let (tokens, _) = scan_all("){x}");
    assert_eq!(
        kinds(&tokens),
        vec![TokenType::TextToken, TokenType::Expression, TokenType::EndOfInput]
    );
    assert_eq!(literal(&tokens[0]), Some(")"));
    assert_eq!(literal(&tokens[1]), Some("{x"));
    assert_eq!(tokens[1].lexeme, "{x}");
}

#[test]
fn frontmatter_block() {
    let source = "---\nconst a = 1;\n---";
    let (tokens, errors) = scan_all(source);
    assert_eq!(kinds(&tokens), vec![TokenType::CodeBlock, TokenType::EndOfInput]);
    assert_eq!(literal(&tokens[0]), Some("\nconst a = 1;\n"));
    assert_eq!(tokens[0].lexeme, source);
    assert_eq!(tokens[0].line, 3);
    assert_eq!(tokens[1].line, 3);
    assert!(errors.is_empty());
}

#[test]
fn frontmatter_block_with_short_bodies() {
    for body in ["", "x", "-", "ab"] {
        let source = format!("---{}---", body);
        let (tokens, _) = scan_all(&source);
        assert_eq!(kinds(&tokens), vec![TokenType::CodeBlock, TokenType::EndOfInput]);
        assert_eq!(literal(&tokens[0]), Some(body));
        assert_eq!(tokens[0].lexeme, source);
    }
}

#[test]
fn frontmatter_then_markup() {
    let (tokens, errors) = scan_all("---\nlet x;\n---\n<p>{x}</p>");
    assert_eq!(
        kinds(&tokens),
        vec![
            TokenType::CodeBlock,
            TokenType::OpeningTagStart,
            TokenType::OpeningTagEnd,
            TokenType::Expression,
            TokenType::ClosingTag,
            TokenType::EndOfInput,
        ]
    );
    assert_eq!(literal(&tokens[0]), Some("\nlet x;\n"));
    assert_eq!(literal(&tokens[3]), Some("x"));
    assert_eq!(tokens[1].line, 4);
    assert!(errors.is_empty());
}

#[test]
fn embedded_sub_template() {
    let (tokens, errors) = scan_all("{x(`<b/>`)y}");
    assert_eq!(
        kinds(&tokens),
        vec![
            TokenType::Expression,
            TokenType::HTMLExprStart,
            TokenType::OpeningTagStart,
            TokenType::OpeningTagEnd,
            TokenType::HTMLExprEnd,
            TokenType::Expression,
            TokenType::EndOfInput,
        ]
    );
    assert_eq!(tokens[0].lexeme, "{x");
    assert_eq!(literal(&tokens[0]), Some(""));
    assert_eq!(tokens[1].lexeme, "(`");
    assert_eq!(literal(&tokens[1]), None);
    assert_eq!(literal(&tokens[2]), Some("b/"));
    assert_eq!(tokens[4].lexeme, "`)");
    assert_eq!(literal(&tokens[4]), None);
    assert_eq!(tokens[5].lexeme, "y}");
    assert_eq!(literal(&tokens[5]), Some("y"));
    assert!(errors.is_empty());
}

#[test]
fn html_expr_end_continues_expression() {
    let (tokens, errors) = scan_all("`)rest}");
    assert_eq!(
        kinds(&tokens),
        vec![TokenType::HTMLExprEnd, TokenType::Expression, TokenType::EndOfInput]
    );
    assert_eq!(literal(&tokens[1]), Some("rest"));
    assert_eq!(tokens[1].lexeme, "rest}");
    assert!(errors.is_empty());
}

#[test]
fn lines_count_consumed_newlines() {
    let (tokens, _) = scan_all("<p>\nhi\n</p>\n");
    assert_eq!(
        kinds(&tokens),
        vec![
            TokenType::OpeningTagStart,
            TokenType::OpeningTagEnd,
            TokenType::TextToken,
            TokenType::ClosingTag,
            TokenType::EndOfInput,
        ]
    );
    assert_eq!(literal(&tokens[2]), Some("hi\n"));
    let lines: Vec<usize> = tokens.iter().map(|t| t.line).collect();
    assert_eq!(lines, vec![1, 1, 3, 3, 4]);
}

#[test]
fn whitespace_only() {
    let (tokens, errors) = scan_all(" \t\r\n ");
    assert_eq!(kinds(&tokens), vec![TokenType::EndOfInput]);
    assert_eq!(tokens[0].line, 2);
    assert!(errors.is_empty());
}

#[test]
fn two_dashes_are_dropped() {
    let (tokens, errors) = scan_all("--x");
    assert_eq!(kinds(&tokens), vec![TokenType::TextToken, TokenType::EndOfInput]);
    assert_eq!(literal(&tokens[0]), Some("x"));
    assert!(errors.is_empty());
}

#[test]
fn non_ascii_text_is_kept_whole() {
    let (tokens, _) = scan_all("<p>héllo wörld</p>");
    assert_eq!(literal(&tokens[2]), Some("héllo wörld"));
}

#[test]
fn unterminated_expression_is_reported() {
    let (tokens, errors) = scan_all("{abc");
    assert_eq!(kinds(&tokens), vec![TokenType::Expression, TokenType::EndOfInput]);
    assert_eq!(tokens[0].lexeme, "{abc");
    assert_eq!(literal(&tokens[0]), Some("ab"));
    assert_eq!(errors, vec![ScanError { kind: ErrorKind::UnterminatedExpression, line: 1 }]);
}

#[test]
fn unterminated_code_block_is_reported() {
    let (tokens, errors) = scan_all("---abc");
    assert_eq!(kinds(&tokens), vec![TokenType::CodeBlock, TokenType::EndOfInput]);
    assert_eq!(tokens[0].lexeme, "---abc");
    assert_eq!(literal(&tokens[0]), Some(""));
    assert_eq!(errors.len(), 6);
    assert_eq!(errors[0], ScanError { kind: ErrorKind::UnterminatedCodeBlock, line: 1 });
    for e in &errors[1..] {
        assert_eq!(*e, ScanError { kind: ErrorKind::OutOfBounds, line: 1 });
    }
}

#[test]
fn lookahead_past_end_is_reported() {
    let (tokens, errors) = scan_all("a\n<");
    assert_eq!(
        kinds(&tokens),
        vec![TokenType::TextToken, TokenType::OpeningTagStart, TokenType::EndOfInput]
    );
    assert_eq!(literal(&tokens[1]), Some(""));
    assert_eq!(errors, vec![ScanError { kind: ErrorKind::OutOfBounds, line: 2 }]);
}

#[test]
fn unclosed_closing_tag() {
    let (tokens, errors) = scan_all("</div");
    assert_eq!(kinds(&tokens), vec![TokenType::ClosingTag, TokenType::EndOfInput]);
    assert_eq!(literal(&tokens[0]), Some("di"));
    assert_eq!(errors, vec![ScanError { kind: ErrorKind::OutOfBounds, line: 1 }]);
}

#[test]
fn error_messages() {
    let e = ScanError { kind: ErrorKind::UnterminatedCodeBlock, line: 1 };
    assert_eq!(e.message(), "Unterminated frontmatter fence token `---`");
    let e = ScanError { kind: ErrorKind::UnterminatedExpression, line: 1 };
    assert_eq!(e.message(), "Unterminated curly brace `}`");
    let e = ScanError { kind: ErrorKind::OutOfBounds, line: 1 };
    assert_eq!(e.message(), "Scanner went out of bound");
}

#[test]
fn tokenize_matches_scanner() {
    let (tokens, errors) = tokenize("<a>{b".to_string());
    let (expected_tokens, expected_errors) = scan_all("<a>{b");
    assert_eq!(kinds(&tokens), kinds(&expected_tokens));
    assert_eq!(errors, expected_errors);
    assert_eq!(errors.len(), 1);
}
