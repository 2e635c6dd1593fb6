use arkts2rust::{Error, Span};

#[test]
fn span_default_is_degenerate() {
    let s = Span::default();
    assert_eq!(s.start, 0);
    assert_eq!(s.end, 0);
    assert_eq!(s.start_line, 1);
    assert_eq!(s.start_col, 1);
    assert_eq!(s.end_line, 1);
    assert_eq!(s.end_col, 1);
}

#[test]
fn span_new_keeps_offsets_and_defaults_coords() {
    let s = Span::new(3, 7);
    assert_eq!(s.start, 3);
    assert_eq!(s.end, 7);
    assert_eq!(s.start_line, 1);
    assert_eq!(s.start_col, 1);
}

#[test]
fn span_new_with_line_col_keeps_everything() {
    let s = Span::new_with_line_col(3, 7, 2, 4, 2, 8);
    assert_eq!(s, Span::new_with_line_col(3, 7, 2, 4, 2, 8));
    assert_eq!(s.end_line, 2);
    assert_eq!(s.end_col, 8);
}

#[test]
fn error_new_keeps_code_and_span() {
    let e = Error::new("UnexpectedChar", Span::new(1, 2));
    assert_eq!(e.code, "UnexpectedChar");
    assert_eq!(e.span.start, 1);
    assert_eq!(e.span.end, 2);
}

#[test]
fn lexer_error_positions_point_at_offender() {
    let err = arkts2rust::lex("let x = @;").unwrap_err();
    assert_eq!(err.code, "UnexpectedChar");
    assert_eq!(err.span.start, 8);
    assert_eq!(err.span.start_col, 9);
}

#[test]
fn parser_error_at_eof_uses_last_token_span() {
    let err = arkts2rust::parse_program("let x = 1").unwrap_err();
    assert_eq!(err.code, "MissingSemicolon");
    assert_eq!(err.span.start, 8);
}

#[test]
fn expected_expr_at_stream_edges() {
    let err = arkts2rust::parse_program(";").unwrap_err();
    assert_eq!(err.code, "ExpectedExpr");
    let err2 = arkts2rust::parse_program("(").unwrap_err();
    assert_eq!(err2.code, "ExpectedExpr");
}
