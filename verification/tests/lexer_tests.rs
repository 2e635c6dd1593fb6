use arkts2rust::{lex, Error, TokenKind};

fn kinds(src: &str) -> Result<Vec<TokenKind>, Error> {
    Ok(lex(src)?.into_iter().map(|t| t.kind).collect())
}

#[test]
fn lex_keywords_vs_ident() {
    let ks = kinds("let lettuce const constant if iff true truth false falsy").unwrap();
    assert_eq!(
        ks,
        vec![
            TokenKind::KwLet,
            TokenKind::Ident("lettuce".into()),
            TokenKind::KwConst,
            TokenKind::Ident("constant".into()),
            TokenKind::KwIf,
            TokenKind::Ident("iff".into()),
            TokenKind::KwTrue,
            TokenKind::Ident("truth".into()),
            TokenKind::KwFalse,
            TokenKind::Ident("falsy".into()),
        ]
    );
}

#[test]
fn lex_number() {
    let ks = kinds("0 12 340").unwrap();
    assert_eq!(
        ks,
        vec![TokenKind::Number(0), TokenKind::Number(12), TokenKind::Number(340)]
    );
}

#[test]
fn lex_string_basic() {
    let ks = kinds(r#""hello""#).unwrap();
    assert_eq!(ks, vec![TokenKind::String("hello".into())]);
}

#[test]
fn lex_string_escape() {
    let ks = kinds(r#""a\"b\\c\n""#).unwrap();
    assert_eq!(ks, vec![TokenKind::String("a\"b\\c\n".into())]);
}

#[test]
fn lex_punctuations() {
    let ks = kinds("( ) { } , ;").unwrap();
    assert_eq!(
        ks,
        vec![
            TokenKind::LParen,
            TokenKind::RParen,
            TokenKind::LBrace,
            TokenKind::RBrace,
            TokenKind::Comma,
            TokenKind::Semicolon,
        ]
    );
}

#[test]
fn lex_operators_single() {
    let ks = kinds("+ - * / % < > ! =").unwrap();
    assert_eq!(
        ks,
        vec![
            TokenKind::Plus,
            TokenKind::Minus,
            TokenKind::Star,
            TokenKind::Slash,
            TokenKind::Percent,
            TokenKind::Lt,
            TokenKind::Gt,
            TokenKind::Not,
            TokenKind::Eq,
        ]
    );
}

#[test]
fn lex_operators_multi() {
    let ks = kinds("== != <= >= && ||").unwrap();
    assert_eq!(
        ks,
        vec![
            TokenKind::EqEq,
            TokenKind::NotEq,
            TokenKind::LtEq,
            TokenKind::GtEq,
            TokenKind::AndAnd,
            TokenKind::OrOr,
        ]
    );
}

#[test]
fn skip_whitespace_and_line_comment() {
    let ks = kinds(
        r#"
let x // comment
const y
"#,
    )
    .unwrap();
    assert_eq!(
        ks,
        vec![TokenKind::KwLet, TokenKind::Ident("x".into()), TokenKind::KwConst, TokenKind::Ident("y".into())]
    );
}

#[test]
fn skip_block_comment() {
    let ks = kinds("let/* hi */x").unwrap();
    assert_eq!(ks, vec![TokenKind::KwLet, TokenKind::Ident("x".into())]);
}

#[test]
fn error_unexpected_char() {
    let err = lex("@").expect_err("should fail on illegal character");
    assert_eq!(err.code, "UnexpectedChar");
    assert_eq!(err.span.start_line, 1);
    assert_eq!(err.span.start_col, 1);
}

#[test]
fn error_unterminated_string() {
    let err = lex("\"abc").expect_err("should fail on unterminated string");
    assert_eq!(err.code, "UnterminatedString");
    assert_eq!(err.span.start_line, 1);
    assert_eq!(err.span.start_col, 1);
}

#[test]
fn span_line_col_across_newline() {
    let tokens = lex("let\nx").unwrap();
    assert_eq!(tokens[0].span.start_line, 1);
    assert_eq!(tokens[0].span.start_col, 1);
    assert_eq!(tokens[1].span.start_line, 2);
    assert_eq!(tokens[1].span.start_col, 1);
}

#[test]
fn lex_colon() {
    let ks = kinds("a: b").unwrap();
    assert_eq!(
        ks,
        vec![TokenKind::Ident("a".into()), TokenKind::Colon, TokenKind::Ident("b".into())]
    );
}

#[test]
fn lex_lone_ampersand_is_error() {
    let err = lex("a & b").expect_err("lone & should fail");
    assert_eq!(err.code, "UnexpectedChar");
    assert_eq!(err.span.start_col, 3);
}

#[test]
fn lex_lone_pipe_is_error() {
    let err = lex("a | b").expect_err("lone | should fail");
    assert_eq!(err.code, "UnexpectedChar");
}

#[test]
fn error_unterminated_block_comment() {
    let err = lex("let /* oops").expect_err("unterminated block comment should fail");
    assert_eq!(err.code, "UnterminatedBlockComment");
    assert_eq!(err.span.start_col, 5);
}

#[test]
fn lex_number_at_i32_limits() {
    let ks = kinds("2147483647").unwrap();
    assert_eq!(ks, vec![TokenKind::Number(2147483647)]);
    let err = lex("2147483648").expect_err("too-large number should fail");
    assert_eq!(err.code, "InvalidNumber");
}

#[test]
fn lex_number_with_leading_zeros() {
    let ks = kinds("0000000001").unwrap();
    assert_eq!(ks, vec![TokenKind::Number(1)]);
}

#[test]
fn lex_byte_offsets_are_utf8() {
    let tokens = lex("let x").unwrap();
    assert_eq!(tokens[0].span.start, 0);
    assert_eq!(tokens[0].span.end, 3);
    assert_eq!(tokens[1].span.start, 4);
    assert_eq!(tokens[1].span.end, 5);
}
