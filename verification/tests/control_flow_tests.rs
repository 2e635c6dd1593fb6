use arkts2rust::{compile, parse_program};

fn assert_codegen(src: &str, expected: &str) {
    let got = compile(src).unwrap();
    assert_eq!(got, expected);
}

#[test]
fn if_else_basic_assign() {
    assert_codegen(
        "if (true) x=1; else x=2;",
        "fn main() {\n    if true {\n        x = 1i32;\n    } else {\n        x = 2i32;\n    }\n}\n",
    );
}

#[test]
fn if_else_with_block_branches() {
    assert_codegen(
        "if (false) { x=1; y=2; } else { x=3; }",
        "fn main() {\n    if false {\n        x = 1i32;\n        y = 2i32;\n    } else {\n        x = 3i32;\n    }\n}\n",
    );
}

#[test]
fn if_else_condition_precedence() {
    assert_codegen(
        "if (1<2==true) return; else return;",
        "fn main() {\n    if 1i32 < 2i32 == true {\n        return;\n    } else {\n        return;\n    }\n}\n",
    );
}

#[test]
fn if_else_nested_if_in_else() {
    assert_codegen(
        "if (false) return; else if (true) return; else return;",
        "fn main() {\n    if false {\n        return;\n    } else {\n        if true {\n            return;\n        } else {\n            return;\n        }\n    }\n}\n",
    );
}

#[test]
fn if_else_then_single_stmt_is_wrapped_in_rust_block() {
    assert_codegen(
        "if (true) console.log(1); else console.log(2);",
        "fn main() {\n    if true {\n        println!(\"{:?}\", 1i32);\n    } else {\n        println!(\"{:?}\", 2i32);\n    }\n}\n",
    );
}

#[test]
fn if_else_return_with_value_is_early_exit() {
    assert_codegen(
        "if (true) return 1; else return 2;",
        "fn main() {\n    if true {\n        let _ = 1i32;\n        return;\n    } else {\n        let _ = 2i32;\n        return;\n    }\n}\n",
    );
}

#[test]
fn while_false_empty_block() {
    assert_codegen(
        "while (false) { }",
        "fn main() {\n    while false {\n    }\n}\n",
    );
}

#[test]
fn while_comparison_updates_var() {
    assert_codegen(
        "let x=0; while (x<3) { x=x+1; }",
        "fn main() {\n    let mut x = 0i32;\n    while x < 3i32 {\n        x = x + 1i32;\n    }\n}\n",
    );
}

#[test]
fn while_body_can_be_single_stmt() {
    assert_codegen(
        "let x=0; while (x<1) x=x+1;",
        "fn main() {\n    let mut x = 0i32;\n    while x < 1i32 {\n        x = x + 1i32;\n    }\n}\n",
    );
}

#[test]
fn while_nested_in_block() {
    assert_codegen(
        "{ while (true) { return; } }",
        "fn main() {\n    {\n        while true {\n            return;\n        }\n    }\n}\n",
    );
}

#[test]
fn error_if_missing_else() {
    let err = parse_program("if (true) x=1;").expect_err("missing else should error");
    assert_eq!(err.code, "MissingElse");
}

#[test]
fn error_condition_must_be_bool() {
    let err = parse_program("if (1) x=1; else x=2;").expect_err("truthy is not allowed");
    assert_eq!(err.code, "ConditionMustBeBool");
}

#[test]
fn error_while_condition_must_be_bool() {
    let err = parse_program("while (1+2) { }").expect_err("arith expression is not bool");
    assert_eq!(err.code, "ConditionMustBeBool");
}

#[test]
fn bool_literal_condition_is_accepted() {
    assert!(parse_program("if (true) x=1; else x=2;").is_ok());
}

#[test]
fn logical_condition_is_accepted() {
    assert!(parse_program("if (a&&b) x=1; else x=2;").is_ok());
}

#[test]
fn call_condition_is_accepted() {
    assert!(parse_program("if (f()) x=1; else x=2;").is_ok());
}

#[test]
fn grouped_number_condition_is_rejected() {
    let err = parse_program("if ((1)) x=1; else x=2;").expect_err("grouped number is not bool");
    assert_eq!(err.code, "ConditionMustBeBool");
}

#[test]
fn numeric_negation_condition_is_rejected() {
    let err = parse_program("while (-x) { }").expect_err("negation is not bool");
    assert_eq!(err.code, "ConditionMustBeBool");
}

#[test]
fn logical_not_condition_is_accepted() {
    assert!(parse_program("while (!x) { }").is_ok());
}
