use hielements::diagnostics::{Diagnostic, DiagnosticBuilder, DiagnosticSeverity};
use hielements::lexer::{Lexer, TokenKind};
use hielements::span::{Position, Span};

#[test]
fn error_builds_as_new_error() {
    let span = Span::new(Position::new(2, 3, 10), Position::new(2, 7, 14));
    let a = Diagnostic::error("E001", "bad thing")
        .with_file("a.hie")
        .with_span(span)
        .with_context("line")
        .with_help("fix it")
        .build();
    let b = DiagnosticBuilder::new(DiagnosticSeverity::Error, "E001".to_string(), "bad thing".to_string())
        .with_file("a.hie")
        .with_span(span)
        .with_context("line")
        .with_help("fix it")
        .build();
    assert_eq!(a.severity, DiagnosticSeverity::Error);
    assert_eq!(a.severity, b.severity);
    assert_eq!(a.code, b.code);
    assert_eq!(a.message, b.message);
    assert_eq!(a.file, b.file);
    assert_eq!(a.span, b.span);
    assert_eq!(a.context, b.context);
    assert_eq!(a.help, b.help);
}

#[test]
fn eof_repeats_with_empty_text() {
    let mut lexer = Lexer::new("element x");
    let mut t = lexer.next_token();
    while t.kind != TokenKind::Eof {
        t = lexer.next_token();
    }
    for _ in 0..3 {
        let again = lexer.next_token();
        assert_eq!(again.kind, TokenKind::Eof);
        assert_eq!(again.text, "");
    }
}
