use arkts2rust::compile;

fn assert_golden(src: &str, expected: &str) {
    let got = compile(src).unwrap();
    assert_eq!(got, expected);
}

#[test]
fn golden_let_number() {
    assert_golden("let x = 1;", "fn main() {\n    let mut x = 1i32;\n}\n");
}

#[test]
fn golden_const_string() {
    assert_golden(
        "const s = \"hi\";",
        "fn main() {\n    let s = String::from(\"hi\");\n}\n",
    );
}

#[test]
fn golden_let_bool_false() {
    assert_golden(
        "let ok = false;",
        "fn main() {\n    let mut ok = false;\n}\n",
    );
}

#[test]
fn golden_console_log_number() {
    assert_golden(
        "console.log(1);",
        "fn main() {\n    println!(\"{:?}\", 1i32);\n}\n",
    );
}

#[test]
fn golden_multi_stmts() {
    assert_golden(
        "let x = 1; console.log(\"a\");",
        "fn main() {\n    let mut x = 1i32;\n    println!(\"{:?}\", String::from(\"a\"));\n}\n",
    );
}

#[test]
fn golden_string_escape_quote_and_backslash() {
    assert_golden(
        "console.log(\"a\\\"b\\\\c\");",
        "fn main() {\n    println!(\"{:?}\", String::from(\"a\\\"b\\\\c\"));\n}\n",
    );
}

#[test]
fn golden_negative_via_unary() {
    assert_golden("let x = -5;", "fn main() {\n    let mut x = -5i32;\n}\n");
}

#[test]
fn string_escape_round_trip_through_lexer() {
    // Emit a literal holding every escape-worthy character, then lex
    // the emitted Rust text again: the re-escaped literal must decode
    // back to the same value.
    let value = "q\"b\\c\nd\te\rf";
    let src = "const s = \"q\\\"b\\\\c\\nd\\te\\rf\";";
    let p = arkts2rust::parse_program(src).unwrap();
    match &p.stmts[0] {
        arkts2rust::Stmt::VarDecl(v) => match &v.init {
            arkts2rust::Expr::Literal(arkts2rust::Literal::String(s)) => {
                assert_eq!(s, value);
            }
            other => panic!("expected string literal, got {:?}", other),
        },
        other => panic!("expected declaration, got {:?}", other),
    }
    let rust = compile(src).unwrap();
    let tokens = arkts2rust::lex(&rust).unwrap();
    let decoded: Vec<String> = tokens
        .into_iter()
        .filter_map(|t| match t.kind {
            arkts2rust::TokenKind::String(s) => Some(s),
            _ => None,
        })
        .collect();
    assert_eq!(decoded, vec![value.to_string()]);
}
