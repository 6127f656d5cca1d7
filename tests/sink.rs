use regg::token::TokenType;
use regg::Regg;

#[test]
fn new_sink_is_clean() {
    let regg = Regg::new();
    assert!(!regg.had_error());
    assert!(regg.reports().is_empty());
}

#[test]
fn error_records_report_with_empty_place() {
    let mut regg = Regg::new();
    regg.error(3, "boom");
    assert!(regg.had_error());
    assert_eq!(regg.reports().len(), 1);
    assert_eq!(regg.reports()[0].line, 3);
    assert_eq!(regg.reports()[0].place, "");
    assert_eq!(regg.reports()[0].message, "boom");
}

#[test]
fn report_keeps_place() {
    let mut regg = Regg::new();
    regg.report(7, " at 'x'", "bad");
    assert_eq!(regg.reports()[0].place, " at 'x'");
    assert_eq!(regg.reports()[0].line, 7);
}

#[test]
fn run_passes_scan_errors_to_sink() {
    let mut regg = Regg::new();
    let tokens = regg.run("<p>\n{abc");
    assert_eq!(tokens.last().map(|t| t.token_type), Some(TokenType::EndOfInput));
    assert!(regg.had_error());
    assert_eq!(regg.reports().len(), 1);
    assert_eq!(regg.reports()[0].line, 2);
    assert_eq!(regg.reports()[0].message, "Unterminated curly brace `}`");
    regg.reset();
    assert!(!regg.had_error());
    assert_eq!(regg.reports().len(), 1);
}

#[test]
fn clean_run_leaves_flag_down() {
    let mut regg = Regg::new();
    let tokens = regg.run("<div>hello</div>");
    assert_eq!(tokens.len(), 5);
    assert!(!regg.had_error());
}
