//! The parser: tokens in, syntax tree out.
//!
//! Statements and declarations parse by recursive descent, expressions
//! by precedence climbing over the binding-power table
//! ([`infix_bp`]); all binary operators are left-associative because
//! each right binding power is one more than the left.  The functional
//! model (`spec_parse` and its helpers) works over token models and
//! carries the next token index beside every parsed piece; the
//! contract of each executable function says it computes exactly what
//! the model says.
//!
//! A handful of model branches exist only to keep the recursion
//! well-founded (each one is marked with [`stuck`]); parsing always
//! consumes input, so no run ever takes them, which the executable
//! functions' contracts prove.

use vstd::prelude::*;
use crate::span::{Span, spec_default_span};
use crate::token::{KindModel, Token, TokenModel, TokenKind, kind_view, tokens_view};
use crate::error::{ErrModel, Error, err_model, err_view};
use crate::ast::{
    AssignStmt, BinaryExpr, BinaryOp, BlockStmt, Callee, CalleeModel, CallExpr, Expr, ExprModel,
    FuncDecl, FuncModel, IfStmt, LitModel, Literal, Param, ParamModel, Program, ProgramModel,
    ReturnStmt, Stmt, StmtModel, TypeAnn, UnaryExpr, UnaryOp, VarDecl, WhileStmt,
    expr_view, exprs_view, func_view, funcs_view, lit_view, param_view, params_view, program_view,
    stmt_view, stmts_view,
};
use crate::chars::str_eq_str;

verus! {

// ------------------------------------------------------------------
// Positions and diagnostics of the model.
// ------------------------------------------------------------------

/// The span used for diagnostics at the end of input: the last
/// token's span, or the degenerate span when there are no tokens.
pub open spec fn spec_eof_span(m: Seq<TokenModel>) -> Span {
    if m.len() > 0 {
        m[m.len() - 1].span
    } else {
        spec_default_span()
    }
}

/// The span of the token at `i`, falling back to the end-of-input
/// span.
pub open spec fn spec_here_span(m: Seq<TokenModel>, i: int) -> Span {
    if 0 <= i < m.len() {
        m[i].span
    } else {
        spec_eof_span(m)
    }
}

/// Marks a model branch that only keeps the recursion well-founded:
/// parsing always consumes input, so no run reaches a branch guarded
/// by it.
pub open spec fn stuck() -> ErrModel {
    err_model(Seq::empty(), spec_default_span())
}

/// Whether a sub-parse's resulting index may feed a further parse:
/// strictly forward and within the input.
pub open spec fn step_ok(m: Seq<TokenModel>, i: int, j: int) -> bool {
    i < j <= m.len()
}

// ------------------------------------------------------------------
// The binding-power table and the condition heuristic.
// ------------------------------------------------------------------

/// Left and right binding power of each infix operator, lowest first;
/// the right power is one more than the left, which makes every
/// operator left-associative.
pub open spec fn spec_infix_bp(k: KindModel) -> Option<(u8, u8, BinaryOp)> {
    match k {
        KindModel::OrOr => Some((1u8, 2u8, BinaryOp::OrOr)),
        KindModel::AndAnd => Some((3u8, 4u8, BinaryOp::AndAnd)),
        KindModel::EqEq => Some((5u8, 6u8, BinaryOp::EqEq)),
        KindModel::NotEq => Some((5u8, 6u8, BinaryOp::NotEq)),
        KindModel::Lt => Some((7u8, 8u8, BinaryOp::Lt)),
        KindModel::LtEq => Some((7u8, 8u8, BinaryOp::LtEq)),
        KindModel::Gt => Some((7u8, 8u8, BinaryOp::Gt)),
        KindModel::GtEq => Some((7u8, 8u8, BinaryOp::GtEq)),
        KindModel::Plus => Some((9u8, 10u8, BinaryOp::Add)),
        KindModel::Minus => Some((9u8, 10u8, BinaryOp::Sub)),
        KindModel::Star => Some((11u8, 12u8, BinaryOp::Mul)),
        KindModel::Slash => Some((11u8, 12u8, BinaryOp::Div)),
        KindModel::Percent => Some((11u8, 12u8, BinaryOp::Mod)),
        _ => None,
    }
}

/// The boolean-likeness heuristic for `if`/`while` conditions: a shape
/// check, not a type system.  Boolean literals, identifiers, calls,
/// logical not, comparison/equality/logical operators and
/// parenthesized boolean-like expressions pass; number and string
/// literals, arithmetic operators and numeric negation are rejected.
pub open spec fn spec_is_bool_like(e: ExprModel) -> bool
    decreases e,
{
    match e {
        ExprModel::Lit(l) => l is Bool,
        ExprModel::Ident(_) => true,
        ExprModel::Call(_, _) => true,
        ExprModel::Group(inner) => spec_is_bool_like(*inner),
        ExprModel::Unary(op, _) => op is Not,
        ExprModel::Binary(op, _, _) => match op {
            BinaryOp::EqEq | BinaryOp::NotEq | BinaryOp::Lt | BinaryOp::LtEq | BinaryOp::Gt
                | BinaryOp::GtEq | BinaryOp::AndAnd | BinaryOp::OrOr => true,
            BinaryOp::Add | BinaryOp::Sub | BinaryOp::Mul | BinaryOp::Div | BinaryOp::Mod => false,
        },
    }
}

// ------------------------------------------------------------------
// Token-level expectations of the model.
// ------------------------------------------------------------------

/// Expects an identifier and yields its text.
pub open spec fn spec_expect_ident(m: Seq<TokenModel>, i: int) -> Result<(Seq<char>, int), ErrModel> {
    if 0 <= i < m.len() {
        match m[i].kind {
            KindModel::Ident(s) => Ok((s, i + 1)),
            _ => Err(err_model("ExpectedIdentifier"@, m[i].span)),
        }
    } else {
        Err(err_model("ExpectedIdentifier"@, spec_eof_span(m)))
    }
}

/// Expects a `;`.
pub open spec fn spec_expect_semicolon(m: Seq<TokenModel>, i: int) -> Result<int, ErrModel> {
    if 0 <= i < m.len() {
        match m[i].kind {
            KindModel::Semicolon => Ok(i + 1),
            _ => Err(err_model("MissingSemicolon"@, m[i].span)),
        }
    } else {
        Err(err_model("MissingSemicolon"@, spec_eof_span(m)))
    }
}

/// Expects a `)`.
pub open spec fn spec_expect_rparen(m: Seq<TokenModel>, i: int) -> Result<int, ErrModel> {
    if 0 <= i < m.len() {
        match m[i].kind {
            KindModel::RParen => Ok(i + 1),
            _ => Err(err_model("MissingRParen"@, m[i].span)),
        }
    } else {
        Err(err_model("MissingRParen"@, spec_eof_span(m)))
    }
}

/// Expects a `.`.
pub open spec fn spec_expect_dot(m: Seq<TokenModel>, i: int) -> Result<int, ErrModel> {
    if 0 <= i < m.len() {
        match m[i].kind {
            KindModel::Dot => Ok(i + 1),
            _ => Err(err_model("ExpectedDot"@, m[i].span)),
        }
    } else {
        Err(err_model("ExpectedDot"@, spec_eof_span(m)))
    }
}

/// Expects one fixed keyword or symbol out of the few the grammar
/// demands by position.
pub open spec fn spec_expect_simple(m: Seq<TokenModel>, i: int, k: KindModel) -> Result<int, ErrModel> {
    if 0 <= i < m.len() {
        let ok = match (m[i].kind, k) {
            (KindModel::KwLet, KindModel::KwLet) => true,
            (KindModel::KwConst, KindModel::KwConst) => true,
            (KindModel::LParen, KindModel::LParen) => true,
            (KindModel::RParen, KindModel::RParen) => true,
            (KindModel::Eq, KindModel::Eq) => true,
            _ => false,
        };
        if ok {
            Ok(i + 1)
        } else {
            Err(err_model("UnexpectedToken"@, m[i].span))
        }
    } else {
        Err(err_model("UnexpectedEof"@, spec_eof_span(m)))
    }
}

// ------------------------------------------------------------------
// The parsing model.
// ------------------------------------------------------------------

/// Parses a literal token.
pub open spec fn spec_parse_literal(m: Seq<TokenModel>, i: int) -> Result<(LitModel, int), ErrModel> {
    if 0 <= i < m.len() {
        match m[i].kind {
            KindModel::Number(n) => Ok((LitModel::Num(n), i + 1)),
            KindModel::StrLit(s) => Ok((LitModel::Str(s), i + 1)),
            KindModel::KwTrue => Ok((LitModel::Bool(true), i + 1)),
            KindModel::KwFalse => Ok((LitModel::Bool(false), i + 1)),
            _ => Err(err_model("ExpectedLiteral"@, m[i].span)),
        }
    } else {
        Err(err_model("ExpectedLiteral"@, spec_eof_span(m)))
    }
}

/// Parses the built-in print call: either the single dotted
/// identifier or the three-token `console` `.` `log` sequence, then
/// one literal argument in parentheses.
pub open spec fn spec_parse_console_log(m: Seq<TokenModel>, i: int) -> Result<(ExprModel, int), ErrModel>
    decreases m.len() - i, 4int,
{
    let start = spec_here_span_or_default(m, i);
    let callee_r: Result<int, ErrModel> = if 0 <= i < m.len() {
        match m[i].kind {
            KindModel::Ident(s) => if s == "console.log"@ {
                Ok(i + 1)
            } else if s == "console"@ {
                match spec_expect_dot(m, i + 1) {
                    Err(e) => Err(e),
                    Ok(j) => match spec_expect_ident(m, j) {
                        Err(e) => Err(e),
                        Ok((w, j2)) => if w == "log"@ {
                            Ok(j2)
                        } else {
                            Err(err_model("UnknownStructure"@, start))
                        },
                    },
                }
            } else {
                Err(err_model("UnknownStructure"@, spec_here_span(m, i)))
            },
            _ => Err(err_model("UnknownStructure"@, spec_here_span(m, i))),
        }
    } else {
        Err(err_model("UnknownStructure"@, spec_here_span(m, i)))
    };
    match callee_r {
        Err(e) => Err(e),
        Ok(j) => match spec_expect_simple(m, j, KindModel::LParen) {
            Err(e) => Err(e),
            Ok(j2) => match spec_parse_literal(m, j2) {
                Err(e) => Err(e),
                Ok((l, j3)) => match spec_expect_rparen(m, j3) {
                    Err(e) => Err(e),
                    Ok(j4) => Ok(
                        (
                            ExprModel::Call(
                                CalleeModel::ConsoleLog,
                                seq![ExprModel::Lit(l)],
                            ),
                            j4,
                        ),
                    ),
                },
            },
        },
    }
}

/// The span of the token at `i`, falling back to the degenerate span
/// (this mirrors reading a position before any token is demanded).
pub open spec fn spec_here_span_or_default(m: Seq<TokenModel>, i: int) -> Span {
    if 0 <= i < m.len() {
        m[i].span
    } else {
        spec_default_span()
    }
}

/// Parses the comma-separated argument list after `name(`, the
/// opening parenthesis already consumed; `acc` holds the arguments
/// parsed so far.
pub open spec fn spec_parse_args_rest(m: Seq<TokenModel>, i: int, acc: Seq<ExprModel>) -> Result<
    (Seq<ExprModel>, int),
    ErrModel,
>
    decreases m.len() - i, 9int,
{
    match spec_parse_expr_bp(m, i, 0u8) {
        Err(e) => Err(e),
        Ok((e, j)) => if 0 <= j < m.len() {
            match m[j].kind {
                KindModel::Comma => if step_ok(m, i, j + 1) {
                    spec_parse_args_rest(m, j + 1, acc.push(e))
                } else {
                    Err(stuck())
                },
                KindModel::RParen => Ok((acc.push(e), j + 1)),
                _ => Err(err_model("MissingRParen"@, m[j].span)),
            }
        } else {
            Err(err_model("MissingRParen"@, spec_eof_span(m)))
        },
    }
}

/// Parses a call's argument list `( expr, ... )`, allowing the empty
/// list.
pub open spec fn spec_parse_call_args(m: Seq<TokenModel>, i: int) -> Result<
    (Seq<ExprModel>, int),
    ErrModel,
>
    decreases m.len() - i, 4int,
{
    match spec_expect_simple(m, i, KindModel::LParen) {
        Err(e) => Err(e),
        Ok(j) => if 0 <= j < m.len() && m[j].kind is RParen {
            Ok((Seq::empty(), j + 1))
        } else if step_ok(m, i, j) {
            spec_parse_args_rest(m, j, Seq::empty())
        } else {
            Err(stuck())
        },
    }
}

/// Parses a primary expression: a literal, an identifier, the
/// built-in print call, or a parenthesized expression (kept as an
/// explicit group node).
pub open spec fn spec_parse_primary(m: Seq<TokenModel>, i: int) -> Result<(ExprModel, int), ErrModel>
    decreases m.len() - i, 5int,
{
    if 0 <= i < m.len() {
        match m[i].kind {
            KindModel::Number(_) | KindModel::StrLit(_) | KindModel::KwTrue
                | KindModel::KwFalse => match spec_parse_literal(m, i) {
                Err(e) => Err(e),
                Ok((l, j)) => Ok((ExprModel::Lit(l), j)),
            },
            KindModel::Ident(s) => if s == "console.log"@ {
                spec_parse_console_log(m, i)
            } else if s == "console"@ && i + 2 < m.len() && m[i + 1].kind is Dot && m[i
                + 2].kind matches KindModel::Ident(_) {
                spec_parse_console_log(m, i)
            } else {
                Ok((ExprModel::Ident(s), i + 1))
            },
            KindModel::LParen => match spec_parse_expr_bp(m, i + 1, 0u8) {
                Err(e) => Err(e),
                Ok((inner, j)) => match spec_expect_rparen(m, j) {
                    Err(e) => Err(e),
                    Ok(j2) => Ok((ExprModel::Group(Box::new(inner)), j2)),
                },
            },
            _ => Err(err_model("ExpectedExpr"@, m[i].span)),
        }
    } else {
        Err(err_model("ExpectedExpr"@, spec_eof_span(m)))
    }
}

/// Parses a prefix expression: `!`/`-` binding tighter than every
/// binary operator, else a primary.
pub open spec fn spec_parse_prefix(m: Seq<TokenModel>, i: int) -> Result<(ExprModel, int), ErrModel>
    decreases m.len() - i, 6int,
{
    if 0 <= i < m.len() && m[i].kind is Not {
        match spec_parse_expr_bp(m, i + 1, 13u8) {
            Err(e) => Err(e),
            Ok((e, j)) => Ok((ExprModel::Unary(UnaryOp::Not, Box::new(e)), j)),
        }
    } else if 0 <= i < m.len() && m[i].kind is Minus {
        match spec_parse_expr_bp(m, i + 1, 13u8) {
            Err(e) => Err(e),
            Ok((e, j)) => Ok((ExprModel::Unary(UnaryOp::Neg, Box::new(e)), j)),
        }
    } else {
        spec_parse_primary(m, i)
    }
}

/// Folds infix operators and call applications onto `lhs` while their
/// binding power reaches `min_bp`.  A call may only apply to a plain
/// identifier; anything else already formed is `UnknownStructure`.
pub open spec fn spec_parse_infix(m: Seq<TokenModel>, i: int, min_bp: u8, lhs: ExprModel) -> Result<
    (ExprModel, int),
    ErrModel,
>
    decreases m.len() - i, 7int,
{
    if 0 <= i < m.len() && m[i].kind is LParen {
        if 15u8 < min_bp {
            Ok((lhs, i))
        } else {
            match lhs {
                ExprModel::Ident(name) => match spec_parse_call_args(m, i) {
                    Err(e) => Err(e),
                    Ok((args, j)) => if step_ok(m, i, j) {
                        spec_parse_infix(
                            m,
                            j,
                            min_bp,
                            ExprModel::Call(CalleeModel::Ident(name), args),
                        )
                    } else {
                        Err(stuck())
                    },
                },
                _ => Err(err_model("UnknownStructure"@, m[i].span)),
            }
        }
    } else if 0 <= i < m.len() {
        match spec_infix_bp(m[i].kind) {
            None => Ok((lhs, i)),
            Some((l_bp, r_bp, op)) => if l_bp < min_bp {
                Ok((lhs, i))
            } else {
                match spec_parse_expr_bp(m, i + 1, r_bp) {
                    Err(e) => Err(e),
                    Ok((rhs, j)) => if step_ok(m, i, j) {
                        spec_parse_infix(
                            m,
                            j,
                            min_bp,
                            ExprModel::Binary(op, Box::new(lhs), Box::new(rhs)),
                        )
                    } else {
                        Err(stuck())
                    },
                }
            },
        }
    } else {
        Ok((lhs, i))
    }
}

/// Parses an expression by precedence climbing: a prefix expression,
/// then every infix whose binding power reaches `min_bp`.
pub open spec fn spec_parse_expr_bp(m: Seq<TokenModel>, i: int, min_bp: u8) -> Result<
    (ExprModel, int),
    ErrModel,
>
    decreases m.len() - i, 8int,
{
    match spec_parse_prefix(m, i) {
        Err(e) => Err(e),
        Ok((lhs, j)) => if step_ok(m, i, j) {
            spec_parse_infix(m, j, min_bp, lhs)
        } else {
            Err(stuck())
        },
    }
}

/// Parses a type annotation name; the four known names, anything else
/// is `UnknownType` at the annotation's position.
pub open spec fn spec_parse_type_ann(m: Seq<TokenModel>, i: int) -> Result<(TypeAnn, int), ErrModel> {
    let start = spec_here_span_or_default(m, i);
    match spec_expect_ident(m, i) {
        Err(e) => Err(e),
        Ok((s, j)) => if s == "number"@ {
            Ok((TypeAnn::Number, j))
        } else if s == "string"@ {
            Ok((TypeAnn::String, j))
        } else if s == "boolean"@ {
            Ok((TypeAnn::Boolean, j))
        } else if s == "void"@ {
            Ok((TypeAnn::Void, j))
        } else {
            Err(err_model("UnknownType"@, start))
        },
    }
}

/// Parses one parameter: a name with an optional `: type`.
pub open spec fn spec_parse_param(m: Seq<TokenModel>, i: int) -> Result<(ParamModel, int), ErrModel>
    decreases m.len() - i, 7int,
{
    match spec_expect_ident(m, i) {
        Err(e) => Err(e),
        Ok((name, j)) => if 0 <= j < m.len() && m[j].kind is Colon {
            match spec_parse_type_ann(m, j + 1) {
                Err(e) => Err(e),
                Ok((t, j2)) => Ok((ParamModel { name, ty: Some(t) }, j2)),
            }
        } else {
            Ok((ParamModel { name, ty: None }, j))
        },
    }
}

/// Parses the non-empty parameter list; a trailing comma before `)`
/// is not permitted, and the closing parenthesis is left for the
/// caller.
pub open spec fn spec_parse_params(m: Seq<TokenModel>, i: int, acc: Seq<ParamModel>) -> Result<
    (Seq<ParamModel>, int),
    ErrModel,
>
    decreases m.len() - i, 8int,
{
    match spec_parse_param(m, i) {
        Err(e) => Err(e),
        Ok((p, j)) => if 0 <= j < m.len() {
            match m[j].kind {
                KindModel::Comma => if step_ok(m, i, j + 1) {
                    spec_parse_params(m, j + 1, acc.push(p))
                } else {
                    Err(stuck())
                },
                KindModel::RParen => Ok((acc.push(p), j)),
                _ => Err(err_model("UnexpectedToken"@, m[j].span)),
            }
        } else {
            Err(err_model("UnexpectedEof"@, spec_eof_span(m)))
        },
    }
}

/// Parses the statements of a block up to the matching `}`.
pub open spec fn spec_parse_block_rest(m: Seq<TokenModel>, i: int) -> Result<
    (Seq<StmtModel>, int),
    ErrModel,
>
    decreases m.len() - i, 11int,
{
    if 0 <= i < m.len() {
        if m[i].kind is RBrace {
            Ok((Seq::empty(), i + 1))
        } else {
            match spec_parse_stmt(m, i) {
                Err(e) => Err(e),
                Ok((s, j)) => if step_ok(m, i, j) {
                    match spec_parse_block_rest(m, j) {
                        Err(e) => Err(e),
                        Ok((ss, k)) => Ok((seq![s] + ss, k)),
                    }
                } else {
                    Err(stuck())
                },
            }
        }
    } else {
        Err(err_model("MissingRBrace"@, spec_eof_span(m)))
    }
}

/// Parses a block statement `{ stmt* }` from its opening brace.
pub open spec fn spec_parse_block_stmt(m: Seq<TokenModel>, i: int) -> Result<
    (Seq<StmtModel>, int),
    ErrModel,
>
    decreases m.len() - i, 2int,
{
    if step_ok(m, i, i + 1) {
        spec_parse_block_rest(m, i + 1)
    } else {
        Err(stuck())
    }
}

/// Parses a function body: a block is demanded after the signature.
pub open spec fn spec_parse_block_only(m: Seq<TokenModel>, i: int) -> Result<
    (Seq<StmtModel>, int),
    ErrModel,
>
    decreases m.len() - i, 3int,
{
    if 0 <= i < m.len() && m[i].kind is LBrace {
        spec_parse_block_stmt(m, i)
    } else {
        Err(err_model("ExpectedBlock"@, spec_here_span(m, i)))
    }
}

/// Parses a variable declaration
/// `let name = expr ;` / `const name = expr ;`.
pub open spec fn spec_parse_var_decl(m: Seq<TokenModel>, i: int, is_const: bool) -> Result<
    (StmtModel, int),
    ErrModel,
>
    decreases m.len() - i, 9int,
{
    let kw = if is_const {
        KindModel::KwConst
    } else {
        KindModel::KwLet
    };
    match spec_expect_simple(m, i, kw) {
        Err(e) => Err(e),
        Ok(j) => match spec_expect_ident(m, j) {
            Err(e) => Err(e),
            Ok((name, j2)) => match spec_expect_simple(m, j2, KindModel::Eq) {
                Err(e) => Err(e),
                Ok(j3) => if step_ok(m, i, j3) {
                    match spec_parse_expr_bp(m, j3, 0u8) {
                        Err(e) => Err(e),
                        Ok((init, j4)) => match spec_expect_semicolon(m, j4) {
                            Err(e) => Err(e),
                            Ok(j5) => Ok((StmtModel::VarDecl { is_const, name, init }, j5)),
                        },
                    }
                } else {
                    Err(stuck())
                },
            },
        },
    }
}

/// Parses `if (cond) stmt else stmt`; the condition must be
/// boolean-like, and `else` is mandatory.
pub open spec fn spec_parse_if(m: Seq<TokenModel>, i: int) -> Result<(StmtModel, int), ErrModel>
    decreases m.len() - i, 9int,
{
    match spec_expect_simple(m, i + 1, KindModel::LParen) {
        Err(e) => Err(e),
        Ok(j) => {
            let cond_span = spec_here_span_or_default(m, j);
            if !step_ok(m, i, j) {
                Err(stuck())
            } else {
                match spec_parse_expr_bp(m, j, 0u8) {
                    Err(e) => Err(e),
                    Ok((cond, j2)) => match spec_expect_rparen(m, j2) {
                        Err(e) => Err(e),
                        Ok(j3) => if !spec_is_bool_like(cond) {
                            Err(err_model("ConditionMustBeBool"@, cond_span))
                        } else if !step_ok(m, i, j3) {
                            Err(stuck())
                        } else {
                            match spec_parse_stmt(m, j3) {
                                Err(e) => Err(e),
                                Ok((then_s, j4)) => {
                                    let else_r: Result<int, ErrModel> = if 0 <= j4 < m.len() {
                                        if m[j4].kind is KwElse {
                                            Ok(j4 + 1)
                                        } else {
                                            Err(err_model("MissingElse"@, m[j4].span))
                                        }
                                    } else {
                                        Err(err_model("MissingElse"@, spec_eof_span(m)))
                                    };
                                    match else_r {
                                        Err(e) => Err(e),
                                        Ok(j5) => if !step_ok(m, i, j5) {
                                            Err(stuck())
                                        } else {
                                            match spec_parse_stmt(m, j5) {
                                                Err(e) => Err(e),
                                                Ok((else_s, j6)) => Ok(
                                                    (
                                                        StmtModel::If(
                                                            cond,
                                                            Box::new(then_s),
                                                            Box::new(else_s),
                                                        ),
                                                        j6,
                                                    ),
                                                ),
                                            }
                                        },
                                    }
                                },
                            }
                        },
                    },
                }
            }
        },
    }
}

/// Parses `while (cond) stmt`; the condition must be boolean-like.
pub open spec fn spec_parse_while(m: Seq<TokenModel>, i: int) -> Result<(StmtModel, int), ErrModel>
    decreases m.len() - i, 9int,
{
    match spec_expect_simple(m, i + 1, KindModel::LParen) {
        Err(e) => Err(e),
        Ok(j) => {
            let cond_span = spec_here_span_or_default(m, j);
            if !step_ok(m, i, j) {
                Err(stuck())
            } else {
                match spec_parse_expr_bp(m, j, 0u8) {
                    Err(e) => Err(e),
                    Ok((cond, j2)) => match spec_expect_rparen(m, j2) {
                        Err(e) => Err(e),
                        Ok(j3) => if !spec_is_bool_like(cond) {
                            Err(err_model("ConditionMustBeBool"@, cond_span))
                        } else if !step_ok(m, i, j3) {
                            Err(stuck())
                        } else {
                            match spec_parse_stmt(m, j3) {
                                Err(e) => Err(e),
                                Ok((body, j4)) => Ok(
                                    (StmtModel::While(cond, Box::new(body)), j4),
                                ),
                            }
                        },
                    },
                }
            }
        },
    }
}

/// Parses `return expr? ;`.
pub open spec fn spec_parse_return(m: Seq<TokenModel>, i: int) -> Result<(StmtModel, int), ErrModel>
    decreases m.len() - i, 9int,
{
    if 0 <= i + 1 < m.len() && m[i + 1].kind is Semicolon {
        Ok((StmtModel::Return(None), i + 2))
    } else if step_ok(m, i, i + 1) {
        match spec_parse_expr_bp(m, i + 1, 0u8) {
            Err(e) => Err(e),
            Ok((v, j)) => match spec_expect_semicolon(m, j) {
                Err(e) => Err(e),
                Ok(j2) => Ok((StmtModel::Return(Some(v)), j2)),
            },
        }
    } else {
        Err(stuck())
    }
}

/// Parses an expression statement `expr ;`.
pub open spec fn spec_parse_expr_stmt(m: Seq<TokenModel>, i: int) -> Result<(StmtModel, int), ErrModel>
    decreases m.len() - i, 9int,
{
    match spec_parse_expr_bp(m, i, 0u8) {
        Err(e) => Err(e),
        Ok((e, j)) => match spec_expect_semicolon(m, j) {
            Err(e2) => Err(e2),
            Ok(j2) => Ok((StmtModel::ExprStmt(e), j2)),
        },
    }
}

/// Parses one statement, keyed on the current token.
pub open spec fn spec_parse_stmt(m: Seq<TokenModel>, i: int) -> Result<(StmtModel, int), ErrModel>
    decreases m.len() - i, 10int,
{
    if 0 <= i < m.len() {
        match m[i].kind {
            KindModel::KwLet => spec_parse_var_decl(m, i, false),
            KindModel::KwConst => spec_parse_var_decl(m, i, true),
            KindModel::KwFunction => Err(err_model("FunctionNotAllowedHere"@, m[i].span)),
            KindModel::LBrace => match spec_parse_block_stmt(m, i) {
                Err(e) => Err(e),
                Ok((ss, j)) => Ok((StmtModel::Block(ss), j)),
            },
            KindModel::KwIf => spec_parse_if(m, i),
            KindModel::KwWhile => spec_parse_while(m, i),
            KindModel::KwReturn => spec_parse_return(m, i),
            KindModel::Ident(name) => if i + 1 < m.len() && m[i + 1].kind is Eq {
                match spec_parse_expr_bp(m, i + 2, 0u8) {
                    Err(e) => Err(e),
                    Ok((v, j)) => match spec_expect_semicolon(m, j) {
                        Err(e) => Err(e),
                        Ok(j2) => Ok((StmtModel::Assign { name, value: v }, j2)),
                    },
                }
            } else {
                spec_parse_expr_stmt(m, i)
            },
            _ => spec_parse_expr_stmt(m, i),
        }
    } else {
        spec_parse_expr_stmt(m, i)
    }
}

/// Parses a function declaration
/// `function name(param[: type], ...)[: type] { stmts }`.
pub open spec fn spec_parse_func_decl(m: Seq<TokenModel>, i: int) -> Result<(FuncModel, int), ErrModel>
    decreases m.len() - i, 9int,
{
    match spec_expect_ident(m, i + 1) {
        Err(e) => Err(e),
        Ok((name, j)) => match spec_expect_simple(m, j, KindModel::LParen) {
            Err(e) => Err(e),
            Ok(j2) => {
                let params_r: Result<(Seq<ParamModel>, int), ErrModel> = if 0 <= j2 < m.len()
                    && m[j2].kind is RParen {
                    Ok((Seq::empty(), j2))
                } else if step_ok(m, i, j2) {
                    spec_parse_params(m, j2, Seq::empty())
                } else {
                    Err(stuck())
                };
                match params_r {
                    Err(e) => Err(e),
                    Ok((ps, j3)) => match spec_expect_rparen(m, j3) {
                        Err(e) => Err(e),
                        Ok(j4) => {
                            let ret_r: Result<(Option<TypeAnn>, int), ErrModel> = if 0 <= j4
                                < m.len() && m[j4].kind is Colon {
                                match spec_parse_type_ann(m, j4 + 1) {
                                    Err(e) => Err(e),
                                    Ok((t, j5)) => Ok((Some(t), j5)),
                                }
                            } else {
                                Ok((None, j4))
                            };
                            match ret_r {
                                Err(e) => Err(e),
                                Ok((ret, j6)) => if step_ok(m, i, j6) {
                                    match spec_parse_block_only(m, j6) {
                                        Err(e) => Err(e),
                                        Ok((body, j7)) => Ok(
                                            (
                                                FuncModel { name, params: ps, ret_type: ret, body },
                                                j7,
                                            ),
                                        ),
                                    }
                                } else {
                                    Err(stuck())
                                },
                            }
                        },
                    },
                }
            },
        },
    }
}

/// Parses the top level: function declarations and statements,
/// intermixed in source order, until the tokens are exhausted.
pub open spec fn spec_parse_top(m: Seq<TokenModel>, i: int) -> Result<
    ((Seq<FuncModel>, Seq<StmtModel>), int),
    ErrModel,
>
    decreases m.len() - i, 11int,
{
    if 0 <= i < m.len() {
        if m[i].kind is KwFunction {
            match spec_parse_func_decl(m, i) {
                Err(e) => Err(e),
                Ok((f, j)) => if step_ok(m, i, j) {
                    match spec_parse_top(m, j) {
                        Err(e) => Err(e),
                        Ok(((fs, ss), k)) => Ok(((seq![f] + fs, ss), k)),
                    }
                } else {
                    Err(stuck())
                },
            }
        } else {
            match spec_parse_stmt(m, i) {
                Err(e) => Err(e),
                Ok((s, j)) => if step_ok(m, i, j) {
                    match spec_parse_top(m, j) {
                        Err(e) => Err(e),
                        Ok(((fs, ss), k)) => Ok(((fs, seq![s] + ss), k)),
                    }
                } else {
                    Err(stuck())
                },
            }
        }
    } else {
        Ok(((Seq::empty(), Seq::empty()), i))
    }
}

/// What parsing a token stream denotes: a program model, or the first
/// diagnostic.
pub open spec fn spec_parse(m: Seq<TokenModel>) -> Result<ProgramModel, ErrModel> {
    match spec_parse_top(m, 0) {
        Err(e) => Err(e),
        Ok(((fs, ss), _)) => Ok(ProgramModel { funcs: fs, stmts: ss }),
    }
}


// ------------------------------------------------------------------
// The executable parser.
// ------------------------------------------------------------------

/// The end-of-input diagnostic span: the last token's span, or the
/// degenerate span when there are no tokens.
fn eof_span(ts: &[Token]) -> (s: Span)
    ensures
        s == spec_eof_span(tokens_view(ts@)),
{
    if ts.len() > 0 {
        ts[ts.len() - 1].span
    } else {
        Span::default()
    }
}

/// A diagnostic at the current token, or at the end of input.
fn err_here(ts: &[Token], i: usize, code: &str) -> (e: Error)
    ensures
        err_view(e) == err_model(code@, spec_here_span(tokens_view(ts@), i as int)),
{
    if i < ts.len() {
        Error::new(code, ts[i].span)
    } else {
        Error::new(code, eof_span(ts))
    }
}

/// Expects an identifier and yields its text.
fn expect_ident(ts: &[Token], i: usize) -> (r: Result<(String, usize), Error>)
    requires
        i <= ts@.len(),
    ensures
        match r {
            Ok((s, j)) => spec_expect_ident(tokens_view(ts@), i as int) == Ok::<
                (Seq<char>, int),
                ErrModel,
            >((s@, j as int)) && i < j <= ts@.len(),
            Err(e) => spec_expect_ident(tokens_view(ts@), i as int) == Err::<
                (Seq<char>, int),
                ErrModel,
            >(err_view(e)),
        },
{
    if i < ts.len() {
        match &ts[i].kind {
            TokenKind::Ident(s) => Ok((s.clone(), i + 1)),
            _ => Err(err_here(ts, i, "ExpectedIdentifier")),
        }
    } else {
        Err(err_here(ts, i, "ExpectedIdentifier"))
    }
}

/// Expects a `;`.
fn expect_semicolon(ts: &[Token], i: usize) -> (r: Result<usize, Error>)
    requires
        i <= ts@.len(),
    ensures
        match r {
            Ok(j) => spec_expect_semicolon(tokens_view(ts@), i as int) == Ok::<int, ErrModel>(
                j as int,
            ) && i < j <= ts@.len(),
            Err(e) => spec_expect_semicolon(tokens_view(ts@), i as int) == Err::<int, ErrModel>(
                err_view(e),
            ),
        },
{
    if i < ts.len() && matches!(ts[i].kind, TokenKind::Semicolon) {
        Ok(i + 1)
    } else {
        Err(err_here(ts, i, "MissingSemicolon"))
    }
}

/// Expects a `)`.
fn expect_rparen(ts: &[Token], i: usize) -> (r: Result<usize, Error>)
    requires
        i <= ts@.len(),
    ensures
        match r {
            Ok(j) => spec_expect_rparen(tokens_view(ts@), i as int) == Ok::<int, ErrModel>(
                j as int,
            ) && i < j <= ts@.len(),
            Err(e) => spec_expect_rparen(tokens_view(ts@), i as int) == Err::<int, ErrModel>(
                err_view(e),
            ),
        },
{
    if i < ts.len() && matches!(ts[i].kind, TokenKind::RParen) {
        Ok(i + 1)
    } else {
        Err(err_here(ts, i, "MissingRParen"))
    }
}

/// Expects a `.`.
fn expect_dot(ts: &[Token], i: usize) -> (r: Result<usize, Error>)
    requires
        i <= ts@.len(),
    ensures
        match r {
            Ok(j) => spec_expect_dot(tokens_view(ts@), i as int) == Ok::<int, ErrModel>(j as int)
                && i < j <= ts@.len(),
            Err(e) => spec_expect_dot(tokens_view(ts@), i as int) == Err::<int, ErrModel>(
                err_view(e),
            ),
        },
{
    if i < ts.len() && matches!(ts[i].kind, TokenKind::Dot) {
        Ok(i + 1)
    } else {
        Err(err_here(ts, i, "ExpectedDot"))
    }
}

/// Expects one fixed keyword or symbol.
fn expect_simple(ts: &[Token], i: usize, kind: &TokenKind) -> (r: Result<usize, Error>)
    requires
        i <= ts@.len(),
    ensures
        match r {
            Ok(j) => spec_expect_simple(tokens_view(ts@), i as int, kind_view(*kind)) == Ok::<
                int,
                ErrModel,
            >(j as int) && i < j <= ts@.len(),
            Err(e) => spec_expect_simple(tokens_view(ts@), i as int, kind_view(*kind)) == Err::<
                int,
                ErrModel,
            >(err_view(e)),
        },
{
    if i < ts.len() {
        let ok = match (&ts[i].kind, kind) {
            (TokenKind::KwLet, TokenKind::KwLet) => true,
            (TokenKind::KwConst, TokenKind::KwConst) => true,
            (TokenKind::LParen, TokenKind::LParen) => true,
            (TokenKind::RParen, TokenKind::RParen) => true,
            (TokenKind::Eq, TokenKind::Eq) => true,
            _ => false,
        };
        if ok {
            Ok(i + 1)
        } else {
            Err(Error::new("UnexpectedToken", ts[i].span))
        }
    } else {
        Err(Error::new("UnexpectedEof", eof_span(ts)))
    }
}

/// The binding-power table shared with the code generator's
/// parenthesization rules.
fn infix_bp(k: &TokenKind) -> (r: Option<(u8, u8, BinaryOp)>)
    ensures
        r == spec_infix_bp(kind_view(*k)),
{
    match k {
        TokenKind::OrOr => Some((1u8, 2u8, BinaryOp::OrOr)),
        TokenKind::AndAnd => Some((3u8, 4u8, BinaryOp::AndAnd)),
        TokenKind::EqEq => Some((5u8, 6u8, BinaryOp::EqEq)),
        TokenKind::NotEq => Some((5u8, 6u8, BinaryOp::NotEq)),
        TokenKind::Lt => Some((7u8, 8u8, BinaryOp::Lt)),
        TokenKind::LtEq => Some((7u8, 8u8, BinaryOp::LtEq)),
        TokenKind::Gt => Some((7u8, 8u8, BinaryOp::Gt)),
        TokenKind::GtEq => Some((7u8, 8u8, BinaryOp::GtEq)),
        TokenKind::Plus => Some((9u8, 10u8, BinaryOp::Add)),
        TokenKind::Minus => Some((9u8, 10u8, BinaryOp::Sub)),
        TokenKind::Star => Some((11u8, 12u8, BinaryOp::Mul)),
        TokenKind::Slash => Some((11u8, 12u8, BinaryOp::Div)),
        TokenKind::Percent => Some((11u8, 12u8, BinaryOp::Mod)),
        _ => None,
    }
}

/// The boolean-likeness heuristic on the executable tree.
pub fn is_bool_like_expr(e: &Expr) -> (r: bool)
    ensures
        r == spec_is_bool_like(expr_view(*e)),
    decreases *e,
{
    match e {
        Expr::Literal(l) => matches!(l, Literal::Bool(_)),
        Expr::Ident(_) => true,
        Expr::Call(_) => true,
        Expr::Group(inner) => is_bool_like_expr(inner),
        Expr::Unary(u) => matches!(u.op, UnaryOp::Not),
        Expr::Binary(b) => match b.op {
            BinaryOp::EqEq | BinaryOp::NotEq | BinaryOp::Lt | BinaryOp::LtEq | BinaryOp::Gt
                | BinaryOp::GtEq | BinaryOp::AndAnd | BinaryOp::OrOr => true,
            BinaryOp::Add | BinaryOp::Sub | BinaryOp::Mul | BinaryOp::Div | BinaryOp::Mod => false,
        },
    }
}

/// Parses a literal token.
fn parse_literal(ts: &[Token], i: usize) -> (r: Result<(Literal, usize), Error>)
    requires
        i <= ts@.len(),
    ensures
        match r {
            Ok((l, j)) => spec_parse_literal(tokens_view(ts@), i as int) == Ok::<
                (LitModel, int),
                ErrModel,
            >((lit_view(l), j as int)) && i < j <= ts@.len(),
            Err(e) => spec_parse_literal(tokens_view(ts@), i as int) == Err::<
                (LitModel, int),
                ErrModel,
            >(err_view(e)),
        },
{
    if i < ts.len() {
        match &ts[i].kind {
            TokenKind::Number(n) => Ok((Literal::Number(*n), i + 1)),
            TokenKind::String(s) => Ok((Literal::String(s.clone()), i + 1)),
            TokenKind::KwTrue => Ok((Literal::Bool(true), i + 1)),
            TokenKind::KwFalse => Ok((Literal::Bool(false), i + 1)),
            _ => Err(err_here(ts, i, "ExpectedLiteral")),
        }
    } else {
        Err(err_here(ts, i, "ExpectedLiteral"))
    }
}

/// Parses the built-in print call, in either of its two spellings.
fn parse_console_log_call(ts: &[Token], i: usize) -> (r: Result<(Expr, usize), Error>)
    requires
        i <= ts@.len(),
    ensures
        match r {
            Ok((e, j)) => spec_parse_console_log(tokens_view(ts@), i as int) == Ok::<
                (ExprModel, int),
                ErrModel,
            >((expr_view(e), j as int)) && i < j <= ts@.len(),
            Err(e) => spec_parse_console_log(tokens_view(ts@), i as int) == Err::<
                (ExprModel, int),
                ErrModel,
            >(err_view(e)),
        },
    decreases ts@.len() - i, 4int,
{
    let start_span = if i < ts.len() {
        ts[i].span
    } else {
        Span::default()
    };
    if i >= ts.len() {
        return Err(err_here(ts, i, "UnknownStructure"));
    }
    let j = match &ts[i].kind {
        TokenKind::Ident(s) => {
            if str_eq_str(s.as_str(), "console.log") {
                i + 1
            } else if str_eq_str(s.as_str(), "console") {
                let j1 = match expect_dot(ts, i + 1) {
                    Ok(j1) => j1,
                    Err(e) => {
                        return Err(e);
                    },
                };
                let (w, j2) = match expect_ident(ts, j1) {
                    Ok(p) => p,
                    Err(e) => {
                        return Err(e);
                    },
                };
                if !str_eq_str(w.as_str(), "log") {
                    return Err(Error::new("UnknownStructure", start_span));
                }
                j2
            } else {
                return Err(err_here(ts, i, "UnknownStructure"));
            }
        },
        _ => {
            return Err(err_here(ts, i, "UnknownStructure"));
        },
    };
    let j2 = match expect_simple(ts, j, &TokenKind::LParen) {
        Ok(j2) => j2,
        Err(e) => {
            return Err(e);
        },
    };
    let (l, j3) = match parse_literal(ts, j2) {
        Ok(p) => p,
        Err(e) => {
            return Err(e);
        },
    };
    let j4 = match expect_rparen(ts, j3) {
        Ok(j4) => j4,
        Err(e) => {
            return Err(e);
        },
    };
    let args = vec![Expr::Literal(l)];
    proof {
        assert(exprs_view(args@) =~= seq![ExprModel::Lit(lit_view(l))]);
    }
    Ok((Expr::Call(CallExpr { callee: Callee::ConsoleLog, args }), j4))
}

/// Parses a call's argument list `( expr, ... )`.
fn parse_call_args(ts: &[Token], i: usize) -> (r: Result<(Vec<Expr>, usize), Error>)
    requires
        i <= ts@.len(),
    ensures
        match r {
            Ok((args, j)) => spec_parse_call_args(tokens_view(ts@), i as int) == Ok::<
                (Seq<ExprModel>, int),
                ErrModel,
            >((exprs_view(args@), j as int)) && i < j <= ts@.len(),
            Err(e) => spec_parse_call_args(tokens_view(ts@), i as int) == Err::<
                (Seq<ExprModel>, int),
                ErrModel,
            >(err_view(e)),
        },
    decreases ts@.len() - i, 4int,
{
    let ghost m = tokens_view(ts@);
    let j0 = match expect_simple(ts, i, &TokenKind::LParen) {
        Ok(j0) => j0,
        Err(e) => {
            return Err(e);
        },
    };
    if j0 < ts.len() && matches!(ts[j0].kind, TokenKind::RParen) {
        let args: Vec<Expr> = Vec::new();
        proof {
            assert(exprs_view(args@) =~= Seq::<ExprModel>::empty());
        }
        return Ok((args, j0 + 1));
    }
    let mut args: Vec<Expr> = Vec::new();
    let mut k = j0;
    proof {
        assert(exprs_view(args@) =~= Seq::<ExprModel>::empty());
    }
    loop
        invariant
            m == tokens_view(ts@),
            i < k <= ts@.len(),
            spec_parse_call_args(m, i as int) == spec_parse_args_rest(
                m,
                k as int,
                exprs_view(args@),
            ),
        decreases ts@.len() - k,
    {
        let (e, k2) = match parse_expr_bp(ts, k, 0) {
            Ok(p) => p,
            Err(e) => {
                return Err(e);
            },
        };
        if k2 < ts.len() && matches!(ts[k2].kind, TokenKind::Comma) {
            proof {
                assert(exprs_view(args@.push(e)) =~= exprs_view(args@).push(expr_view(e)));
            }
            args.push(e);
            k = k2 + 1;
        } else if k2 < ts.len() && matches!(ts[k2].kind, TokenKind::RParen) {
            proof {
                assert(exprs_view(args@.push(e)) =~= exprs_view(args@).push(expr_view(e)));
            }
            args.push(e);
            return Ok((args, k2 + 1));
        } else {
            return Err(err_here(ts, k2, "MissingRParen"));
        }
    }
}

/// Parses a primary expression.
fn parse_primary(ts: &[Token], i: usize) -> (r: Result<(Expr, usize), Error>)
    requires
        i <= ts@.len(),
    ensures
        match r {
            Ok((e, j)) => spec_parse_primary(tokens_view(ts@), i as int) == Ok::<
                (ExprModel, int),
                ErrModel,
            >((expr_view(e), j as int)) && i < j <= ts@.len(),
            Err(e) => spec_parse_primary(tokens_view(ts@), i as int) == Err::<
                (ExprModel, int),
                ErrModel,
            >(err_view(e)),
        },
    decreases ts@.len() - i, 5int,
{
    if i >= ts.len() {
        return Err(err_here(ts, i, "ExpectedExpr"));
    }
    match &ts[i].kind {
        TokenKind::Number(_) | TokenKind::String(_) | TokenKind::KwTrue | TokenKind::KwFalse => {
            let (l, j) = match parse_literal(ts, i) {
                Ok(p) => p,
                Err(e) => {
                    return Err(e);
                },
            };
            Ok((Expr::Literal(l), j))
        },
        TokenKind::Ident(s) => {
            if str_eq_str(s.as_str(), "console.log") {
                parse_console_log_call(ts, i)
            } else if str_eq_str(s.as_str(), "console") && ts.len() - i > 2 && matches!(
                ts[i + 1].kind,
                TokenKind::Dot,
            ) && matches!(&ts[i + 2].kind, TokenKind::Ident(_)) {
                parse_console_log_call(ts, i)
            } else {
                Ok((Expr::Ident(s.clone()), i + 1))
            }
        },
        TokenKind::LParen => {
            let (inner, j) = match parse_expr_bp(ts, i + 1, 0) {
                Ok(p) => p,
                Err(e) => {
                    return Err(e);
                },
            };
            let j2 = match expect_rparen(ts, j) {
                Ok(j2) => j2,
                Err(e) => {
                    return Err(e);
                },
            };
            Ok((Expr::Group(Box::new(inner)), j2))
        },
        _ => Err(err_here(ts, i, "ExpectedExpr")),
    }
}

/// Parses a prefix expression.
fn parse_prefix(ts: &[Token], i: usize) -> (r: Result<(Expr, usize), Error>)
    requires
        i <= ts@.len(),
    ensures
        match r {
            Ok((e, j)) => spec_parse_prefix(tokens_view(ts@), i as int) == Ok::<
                (ExprModel, int),
                ErrModel,
            >((expr_view(e), j as int)) && i < j <= ts@.len(),
            Err(e) => spec_parse_prefix(tokens_view(ts@), i as int) == Err::<
                (ExprModel, int),
                ErrModel,
            >(err_view(e)),
        },
    decreases ts@.len() - i, 6int,
{
    if i < ts.len() && matches!(ts[i].kind, TokenKind::Not) {
        let (e, j) = match parse_expr_bp(ts, i + 1, 13) {
            Ok(p) => p,
            Err(e) => {
                return Err(e);
            },
        };
        Ok((Expr::Unary(UnaryExpr { op: UnaryOp::Not, expr: Box::new(e) }), j))
    } else if i < ts.len() && matches!(ts[i].kind, TokenKind::Minus) {
        let (e, j) = match parse_expr_bp(ts, i + 1, 13) {
            Ok(p) => p,
            Err(e) => {
                return Err(e);
            },
        };
        Ok((Expr::Unary(UnaryExpr { op: UnaryOp::Neg, expr: Box::new(e) }), j))
    } else {
        parse_primary(ts, i)
    }
}

/// Parses an expression by precedence climbing: a prefix expression,
/// then every infix operator and call application whose binding power
/// reaches `min_bp`.
fn parse_expr_bp(ts: &[Token], i: usize, min_bp: u8) -> (r: Result<(Expr, usize), Error>)
    requires
        i <= ts@.len(),
    ensures
        match r {
            Ok((e, j)) => spec_parse_expr_bp(tokens_view(ts@), i as int, min_bp) == Ok::<
                (ExprModel, int),
                ErrModel,
            >((expr_view(e), j as int)) && i < j <= ts@.len(),
            Err(e) => spec_parse_expr_bp(tokens_view(ts@), i as int, min_bp) == Err::<
                (ExprModel, int),
                ErrModel,
            >(err_view(e)),
        },
    decreases ts@.len() - i, 8int,
{
    let ghost m = tokens_view(ts@);
    let (lhs0, j0) = match parse_prefix(ts, i) {
        Ok(p) => p,
        Err(e) => {
            return Err(e);
        },
    };
    let mut lhs = lhs0;
    let mut j = j0;
    loop
        invariant
            m == tokens_view(ts@),
            i < j <= ts@.len(),
            spec_parse_expr_bp(m, i as int, min_bp) == spec_parse_infix(
                m,
                j as int,
                min_bp,
                expr_view(lhs),
            ),
        decreases ts@.len() - j,
    {
        if j < ts.len() && matches!(ts[j].kind, TokenKind::LParen) {
            if 15 < min_bp {
                return Ok((lhs, j));
            }
            let lparen_span = ts[j].span;
            match lhs {
                Expr::Ident(name) => {
                    let (args, j2) = match parse_call_args(ts, j) {
                        Ok(p) => p,
                        Err(e) => {
                            return Err(e);
                        },
                    };
                    lhs = Expr::Call(CallExpr { callee: Callee::Ident(name), args });
                    j = j2;
                },
                _ => {
                    return Err(Error::new("UnknownStructure", lparen_span));
                },
            }
        } else {
            if j >= ts.len() {
                return Ok((lhs, j));
            }
            match infix_bp(&ts[j].kind) {
                None => {
                    return Ok((lhs, j));
                },
                Some((l_bp, r_bp, op)) => {
                    if l_bp < min_bp {
                        return Ok((lhs, j));
                    }
                    let (rhs, j2) = match parse_expr_bp(ts, j + 1, r_bp) {
                        Ok(p) => p,
                        Err(e) => {
                            return Err(e);
                        },
                    };
                    lhs = Expr::Binary(
                        BinaryExpr { op, left: Box::new(lhs), right: Box::new(rhs) },
                    );
                    j = j2;
                },
            }
        }
    }
}

/// Parses an expression statement `expr ;`.
fn parse_expr_stmt(ts: &[Token], i: usize) -> (r: Result<(Stmt, usize), Error>)
    requires
        i <= ts@.len(),
    ensures
        match r {
            Ok((s, j)) => spec_parse_expr_stmt(tokens_view(ts@), i as int) == Ok::<
                (StmtModel, int),
                ErrModel,
            >((stmt_view(s), j as int)) && i < j <= ts@.len(),
            Err(e) => spec_parse_expr_stmt(tokens_view(ts@), i as int) == Err::<
                (StmtModel, int),
                ErrModel,
            >(err_view(e)),
        },
    decreases ts@.len() - i, 9int,
{
    let (e, j) = match parse_expr_bp(ts, i, 0) {
        Ok(p) => p,
        Err(e) => {
            return Err(e);
        },
    };
    let j2 = match expect_semicolon(ts, j) {
        Ok(j2) => j2,
        Err(e) => {
            return Err(e);
        },
    };
    Ok((Stmt::ExprStmt(e), j2))
}

/// Parses a type annotation name.
fn parse_type_ann(ts: &[Token], i: usize) -> (r: Result<(TypeAnn, usize), Error>)
    requires
        i <= ts@.len(),
    ensures
        match r {
            Ok((t, j)) => spec_parse_type_ann(tokens_view(ts@), i as int) == Ok::<
                (TypeAnn, int),
                ErrModel,
            >((t, j as int)) && i < j <= ts@.len(),
            Err(e) => spec_parse_type_ann(tokens_view(ts@), i as int) == Err::<
                (TypeAnn, int),
                ErrModel,
            >(err_view(e)),
        },
{
    let start = if i < ts.len() {
        ts[i].span
    } else {
        Span::default()
    };
    let (s, j) = match expect_ident(ts, i) {
        Ok(p) => p,
        Err(e) => {
            return Err(e);
        },
    };
    if str_eq_str(s.as_str(), "number") {
        Ok((TypeAnn::Number, j))
    } else if str_eq_str(s.as_str(), "string") {
        Ok((TypeAnn::String, j))
    } else if str_eq_str(s.as_str(), "boolean") {
        Ok((TypeAnn::Boolean, j))
    } else if str_eq_str(s.as_str(), "void") {
        Ok((TypeAnn::Void, j))
    } else {
        Err(Error::new("UnknownType", start))
    }
}

/// Parses one parameter: a name with an optional `: type`.
fn parse_param(ts: &[Token], i: usize) -> (r: Result<(Param, usize), Error>)
    requires
        i <= ts@.len(),
    ensures
        match r {
            Ok((p, j)) => spec_parse_param(tokens_view(ts@), i as int) == Ok::<
                (ParamModel, int),
                ErrModel,
            >((param_view(p), j as int)) && i < j <= ts@.len(),
            Err(e) => spec_parse_param(tokens_view(ts@), i as int) == Err::<
                (ParamModel, int),
                ErrModel,
            >(err_view(e)),
        },
    decreases ts@.len() - i, 7int,
{
    let (name, j) = match expect_ident(ts, i) {
        Ok(p) => p,
        Err(e) => {
            return Err(e);
        },
    };
    if j < ts.len() && matches!(ts[j].kind, TokenKind::Colon) {
        let (t, j2) = match parse_type_ann(ts, j + 1) {
            Ok(p) => p,
            Err(e) => {
                return Err(e);
            },
        };
        Ok((Param { name, ty: Some(t) }, j2))
    } else {
        Ok((Param { name, ty: None }, j))
    }
}


/// Parses a block statement `{ stmt* }` from its opening brace.
fn parse_block_stmt(ts: &[Token], i: usize) -> (r: Result<(BlockStmt, usize), Error>)
    requires
        i < ts@.len(),
    ensures
        match r {
            Ok((b, j)) => spec_parse_block_stmt(tokens_view(ts@), i as int) == Ok::<
                (Seq<StmtModel>, int),
                ErrModel,
            >((stmts_view(b.stmts@), j as int)) && i < j <= ts@.len(),
            Err(e) => spec_parse_block_stmt(tokens_view(ts@), i as int) == Err::<
                (Seq<StmtModel>, int),
                ErrModel,
            >(err_view(e)),
        },
    decreases ts@.len() - i, 2int,
{
    let ghost m = tokens_view(ts@);
    let n = ts.len();
    let mut out: Vec<Stmt> = Vec::new();
    let mut k = i + 1;
    proof {
        assert(k <= n);
    }
    proof {
        assert(stmts_view(out@) =~= Seq::<StmtModel>::empty());
    }
    loop
        invariant
            m == tokens_view(ts@),
            i < k <= ts@.len(),
            spec_parse_block_stmt(m, i as int) == match spec_parse_block_rest(m, k as int) {
                Ok((ss, j)) => Ok::<(Seq<StmtModel>, int), ErrModel>(
                    (stmts_view(out@) + ss, j),
                ),
                Err(e) => Err::<(Seq<StmtModel>, int), ErrModel>(e),
            },
        decreases ts@.len() - k,
    {
        if k >= ts.len() {
            return Err(Error::new("MissingRBrace", eof_span(ts)));
        }
        if matches!(ts[k].kind, TokenKind::RBrace) {
            proof {
                assert(stmts_view(out@) + Seq::<StmtModel>::empty() =~= stmts_view(out@));
            }
            return Ok((BlockStmt { stmts: out }, k + 1));
        }
        let (s, k2) = match parse_stmt(ts, k) {
            Ok(p) => p,
            Err(e) => {
                return Err(e);
            },
        };
        proof {
            assert(stmts_view(out@.push(s)) =~= stmts_view(out@).push(stmt_view(s)));
            let rest = spec_parse_block_rest(m, k2 as int);
            if rest is Ok {
                assert(stmts_view(out@) + (seq![stmt_view(s)] + rest->Ok_0.0) =~= (stmts_view(
                    out@,
                ).push(stmt_view(s))) + rest->Ok_0.0);
            }
        }
        out.push(s);
        k = k2;
    }
}

/// Parses a function body, which must be a block.
fn parse_block_only(ts: &[Token], i: usize) -> (r: Result<(BlockStmt, usize), Error>)
    requires
        i <= ts@.len(),
    ensures
        match r {
            Ok((b, j)) => spec_parse_block_only(tokens_view(ts@), i as int) == Ok::<
                (Seq<StmtModel>, int),
                ErrModel,
            >((stmts_view(b.stmts@), j as int)) && i < j <= ts@.len(),
            Err(e) => spec_parse_block_only(tokens_view(ts@), i as int) == Err::<
                (Seq<StmtModel>, int),
                ErrModel,
            >(err_view(e)),
        },
    decreases ts@.len() - i, 3int,
{
    if i < ts.len() && matches!(ts[i].kind, TokenKind::LBrace) {
        parse_block_stmt(ts, i)
    } else {
        Err(err_here(ts, i, "ExpectedBlock"))
    }
}

/// Parses a variable declaration
/// `let name = expr ;` / `const name = expr ;`.
fn parse_var_decl(ts: &[Token], i: usize, is_const: bool) -> (r: Result<(Stmt, usize), Error>)
    requires
        i <= ts@.len(),
    ensures
        match r {
            Ok((s, j)) => spec_parse_var_decl(tokens_view(ts@), i as int, is_const) == Ok::<
                (StmtModel, int),
                ErrModel,
            >((stmt_view(s), j as int)) && i < j <= ts@.len(),
            Err(e) => spec_parse_var_decl(tokens_view(ts@), i as int, is_const) == Err::<
                (StmtModel, int),
                ErrModel,
            >(err_view(e)),
        },
    decreases ts@.len() - i, 9int,
{
    let kw = if is_const {
        TokenKind::KwConst
    } else {
        TokenKind::KwLet
    };
    let j = match expect_simple(ts, i, &kw) {
        Ok(j) => j,
        Err(e) => {
            return Err(e);
        },
    };
    let (name, j2) = match expect_ident(ts, j) {
        Ok(p) => p,
        Err(e) => {
            return Err(e);
        },
    };
    let j3 = match expect_simple(ts, j2, &TokenKind::Eq) {
        Ok(j3) => j3,
        Err(e) => {
            return Err(e);
        },
    };
    let (init, j4) = match parse_expr_bp(ts, j3, 0) {
        Ok(p) => p,
        Err(e) => {
            return Err(e);
        },
    };
    let j5 = match expect_semicolon(ts, j4) {
        Ok(j5) => j5,
        Err(e) => {
            return Err(e);
        },
    };
    Ok((Stmt::VarDecl(VarDecl { is_const, name, init }), j5))
}

/// Parses `if (cond) stmt else stmt`; the condition must be
/// boolean-like and `else` is mandatory.
#[verifier::rlimit(50)]
fn parse_if_stmt(ts: &[Token], i: usize) -> (r: Result<(Stmt, usize), Error>)
    requires
        i < ts@.len(),
    ensures
        match r {
            Ok((s, j)) => spec_parse_if(tokens_view(ts@), i as int) == Ok::<
                (StmtModel, int),
                ErrModel,
            >((stmt_view(s), j as int)) && i < j <= ts@.len(),
            Err(e) => spec_parse_if(tokens_view(ts@), i as int) == Err::<(StmtModel, int), ErrModel>(
                err_view(e),
            ),
        },
    decreases ts@.len() - i, 9int,
{
    let n = ts.len();
    let j = match expect_simple(ts, i + 1, &TokenKind::LParen) {
        Ok(j) => j,
        Err(e) => {
            return Err(e);
        },
    };
    let cond_span = if j < n {
        ts[j].span
    } else {
        Span::default()
    };
    let (cond, j2) = match parse_expr_bp(ts, j, 0) {
        Ok(p) => p,
        Err(e) => {
            return Err(e);
        },
    };
    let j3 = match expect_rparen(ts, j2) {
        Ok(j3) => j3,
        Err(e) => {
            return Err(e);
        },
    };
    if !is_bool_like_expr(&cond) {
        return Err(Error::new("ConditionMustBeBool", cond_span));
    }
    let (then_s, j4) = match parse_stmt(ts, j3) {
        Ok(p) => p,
        Err(e) => {
            return Err(e);
        },
    };
    let j5 = if j4 < n {
        if matches!(ts[j4].kind, TokenKind::KwElse) {
            j4 + 1
        } else {
            return Err(Error::new("MissingElse", ts[j4].span));
        }
    } else {
        return Err(Error::new("MissingElse", eof_span(ts)));
    };
    let (else_s, j6) = match parse_stmt(ts, j5) {
        Ok(p) => p,
        Err(e) => {
            return Err(e);
        },
    };
    Ok(
        (
            Stmt::If(
                IfStmt { cond, then_branch: Box::new(then_s), else_branch: Box::new(else_s) },
            ),
            j6,
        ),
    )
}

/// Parses `while (cond) stmt`; the condition must be boolean-like.
#[verifier::rlimit(50)]
fn parse_while_stmt(ts: &[Token], i: usize) -> (r: Result<(Stmt, usize), Error>)
    requires
        i < ts@.len(),
    ensures
        match r {
            Ok((s, j)) => spec_parse_while(tokens_view(ts@), i as int) == Ok::<
                (StmtModel, int),
                ErrModel,
            >((stmt_view(s), j as int)) && i < j <= ts@.len(),
            Err(e) => spec_parse_while(tokens_view(ts@), i as int) == Err::<
                (StmtModel, int),
                ErrModel,
            >(err_view(e)),
        },
    decreases ts@.len() - i, 9int,
{
    let n = ts.len();
    let j = match expect_simple(ts, i + 1, &TokenKind::LParen) {
        Ok(j) => j,
        Err(e) => {
            return Err(e);
        },
    };
    let cond_span = if j < n {
        ts[j].span
    } else {
        Span::default()
    };
    let (cond, j2) = match parse_expr_bp(ts, j, 0) {
        Ok(p) => p,
        Err(e) => {
            return Err(e);
        },
    };
    let j3 = match expect_rparen(ts, j2) {
        Ok(j3) => j3,
        Err(e) => {
            return Err(e);
        },
    };
    if !is_bool_like_expr(&cond) {
        return Err(Error::new("ConditionMustBeBool", cond_span));
    }
    let (body, j4) = match parse_stmt(ts, j3) {
        Ok(p) => p,
        Err(e) => {
            return Err(e);
        },
    };
    Ok((Stmt::While(WhileStmt { cond, body: Box::new(body) }), j4))
}

/// Parses `return expr? ;`.
fn parse_return_stmt(ts: &[Token], i: usize) -> (r: Result<(Stmt, usize), Error>)
    requires
        i < ts@.len(),
    ensures
        match r {
            Ok((s, j)) => spec_parse_return(tokens_view(ts@), i as int) == Ok::<
                (StmtModel, int),
                ErrModel,
            >((stmt_view(s), j as int)) && i < j <= ts@.len(),
            Err(e) => spec_parse_return(tokens_view(ts@), i as int) == Err::<
                (StmtModel, int),
                ErrModel,
            >(err_view(e)),
        },
    decreases ts@.len() - i, 9int,
{
    let n = ts.len();
    if i + 1 < n && matches!(ts[i + 1].kind, TokenKind::Semicolon) {
        return Ok((Stmt::Return(ReturnStmt { value: None }), i + 2));
    }
    let (v, j) = match parse_expr_bp(ts, i + 1, 0) {
        Ok(p) => p,
        Err(e) => {
            return Err(e);
        },
    };
    let j2 = match expect_semicolon(ts, j) {
        Ok(j2) => j2,
        Err(e) => {
            return Err(e);
        },
    };
    Ok((Stmt::Return(ReturnStmt { value: Some(v) }), j2))
}

/// Parses one statement, keyed on the current token.
fn parse_stmt(ts: &[Token], i: usize) -> (r: Result<(Stmt, usize), Error>)
    requires
        i <= ts@.len(),
    ensures
        match r {
            Ok((s, j)) => spec_parse_stmt(tokens_view(ts@), i as int) == Ok::<
                (StmtModel, int),
                ErrModel,
            >((stmt_view(s), j as int)) && i < j <= ts@.len(),
            Err(e) => spec_parse_stmt(tokens_view(ts@), i as int) == Err::<
                (StmtModel, int),
                ErrModel,
            >(err_view(e)),
        },
    decreases ts@.len() - i, 10int,
{
    if i >= ts.len() {
        return parse_expr_stmt(ts, i);
    }
    match &ts[i].kind {
        TokenKind::KwLet => parse_var_decl(ts, i, false),
        TokenKind::KwConst => parse_var_decl(ts, i, true),
        TokenKind::KwFunction => Err(Error::new("FunctionNotAllowedHere", ts[i].span)),
        TokenKind::LBrace => {
            let (b, j) = match parse_block_stmt(ts, i) {
                Ok(p) => p,
                Err(e) => {
                    return Err(e);
                },
            };
            Ok((Stmt::Block(b), j))
        },
        TokenKind::KwIf => parse_if_stmt(ts, i),
        TokenKind::KwWhile => parse_while_stmt(ts, i),
        TokenKind::KwReturn => parse_return_stmt(ts, i),
        TokenKind::Ident(name) => {
            if i + 1 < ts.len() && matches!(ts[i + 1].kind, TokenKind::Eq) {
                let nm = name.clone();
                let (v, j) = match parse_expr_bp(ts, i + 2, 0) {
                    Ok(p) => p,
                    Err(e) => {
                        return Err(e);
                    },
                };
                let j2 = match expect_semicolon(ts, j) {
                    Ok(j2) => j2,
                    Err(e) => {
                        return Err(e);
                    },
                };
                Ok((Stmt::Assign(AssignStmt { name: nm, value: v }), j2))
            } else {
                parse_expr_stmt(ts, i)
            }
        },
        _ => parse_expr_stmt(ts, i),
    }
}

/// Parses a function declaration
/// `function name(param[: type], ...)[: type] { stmts }`.
#[verifier::rlimit(100)]
fn parse_func_decl(ts: &[Token], i: usize) -> (r: Result<(FuncDecl, usize), Error>)
    requires
        i < ts@.len(),
    ensures
        match r {
            Ok((f, j)) => spec_parse_func_decl(tokens_view(ts@), i as int) == Ok::<
                (FuncModel, int),
                ErrModel,
            >((func_view(f), j as int)) && i < j <= ts@.len(),
            Err(e) => spec_parse_func_decl(tokens_view(ts@), i as int) == Err::<
                (FuncModel, int),
                ErrModel,
            >(err_view(e)),
        },
    decreases ts@.len() - i, 9int,
{
    let ghost m = tokens_view(ts@);
    let n = ts.len();
    proof {
        assert(i + 1 <= n);
    }
    let (name, j) = match expect_ident(ts, i + 1) {
        Ok(p) => p,
        Err(e) => {
            return Err(e);
        },
    };
    let j2 = match expect_simple(ts, j, &TokenKind::LParen) {
        Ok(j2) => j2,
        Err(e) => {
            return Err(e);
        },
    };
    let mut params: Vec<Param> = Vec::new();
    proof {
        assert(params_view(params@) =~= Seq::<ParamModel>::empty());
    }
    let mut j3 = j2;
    if j2 < ts.len() && matches!(ts[j2].kind, TokenKind::RParen) {
        proof {
            assert(spec_parse_func_decl(m, i as int) == spec_func_decl_after_params(
                m,
                i as int,
                params_view(params@),
                j3 as int,
            ));
        }
    } else {
        loop
            invariant_except_break
                m == tokens_view(ts@),
                i < j3 <= ts@.len(),
                (match spec_parse_params(m, j3 as int, params_view(params@)) {
                    Ok((ps, j4)) => spec_parse_func_decl(m, i as int) == spec_func_decl_after_params(
                        m,
                        i as int,
                        ps,
                        j4,
                    ),
                    Err(e) => spec_parse_func_decl(m, i as int) == Err::<(FuncModel, int), ErrModel>(
                        e,
                    ),
                }),
            ensures
                m == tokens_view(ts@),
                i < j3 <= ts@.len(),
                spec_parse_func_decl(m, i as int) == spec_func_decl_after_params(
                    m,
                    i as int,
                    params_view(params@),
                    j3 as int,
                ),
            decreases ts@.len() - j3,
        {
            let (p, k2) = match parse_param(ts, j3) {
                Ok(p) => p,
                Err(e) => {
                    return Err(e);
                },
            };
            if k2 < ts.len() && matches!(ts[k2].kind, TokenKind::Comma) {
                proof {
                    assert(params_view(params@.push(p)) =~= params_view(params@).push(
                        param_view(p),
                    ));
                }
                params.push(p);
                j3 = k2 + 1;
            } else if k2 < ts.len() && matches!(ts[k2].kind, TokenKind::RParen) {
                proof {
                    assert(params_view(params@.push(p)) =~= params_view(params@).push(
                        param_view(p),
                    ));
                }
                params.push(p);
                j3 = k2;
                break;
            } else if k2 < ts.len() {
                return Err(Error::new("UnexpectedToken", ts[k2].span));
            } else {
                return Err(Error::new("UnexpectedEof", eof_span(ts)));
            }
        }
    }
    let j4 = match expect_rparen(ts, j3) {
        Ok(j4) => j4,
        Err(e) => {
            return Err(e);
        },
    };
    let (ret_type, j6) = if j4 < ts.len() && matches!(ts[j4].kind, TokenKind::Colon) {
        let (t, j5) = match parse_type_ann(ts, j4 + 1) {
            Ok(p) => p,
            Err(e) => {
                return Err(e);
            },
        };
        (Some(t), j5)
    } else {
        (None, j4)
    };
    let (body, j7) = match parse_block_only(ts, j6) {
        Ok(p) => p,
        Err(e) => {
            return Err(e);
        },
    };
    Ok((FuncDecl { name, params, ret_type, body }, j7))
}

/// What remains of a function declaration's model once its parameter
/// list is known: the closing parenthesis, the optional return
/// annotation, and the body.
pub open spec fn spec_func_decl_after_params(
    m: Seq<TokenModel>,
    i: int,
    ps: Seq<ParamModel>,
    j3: int,
) -> Result<(FuncModel, int), ErrModel>
    decreases m.len() - i, 9int,
{
    match spec_expect_ident(m, i + 1) {
        Err(e) => Err(e),
        Ok((name, _)) => match spec_expect_rparen(m, j3) {
            Err(e) => Err(e),
            Ok(j4) => {
                let ret_r: Result<(Option<TypeAnn>, int), ErrModel> = if 0 <= j4 < m.len()
                    && m[j4].kind is Colon {
                    match spec_parse_type_ann(m, j4 + 1) {
                        Err(e) => Err(e),
                        Ok((t, j5)) => Ok((Some(t), j5)),
                    }
                } else {
                    Ok((None, j4))
                };
                match ret_r {
                    Err(e) => Err(e),
                    Ok((ret, j6)) => if step_ok(m, i, j6) {
                        match spec_parse_block_only(m, j6) {
                            Err(e) => Err(e),
                            Ok((body, j7)) => Ok(
                                (FuncModel { name, params: ps, ret_type: ret, body }, j7),
                            ),
                        }
                    } else {
                        Err(stuck())
                    },
                }
            },
        },
    }
}

/// Parses a whole token stream into a program: function declarations
/// and statements intermixed at the top level, until the tokens are
/// exhausted.  The result is exactly what [`spec_parse`] says of the
/// token models.
#[verifier::rlimit(100)]
pub fn parse(tokens: &[Token]) -> (r: Result<Program, Error>)
    ensures
        match r {
            Ok(p) => spec_parse(tokens_view(tokens@)) == Ok::<ProgramModel, ErrModel>(
                program_view(p),
            ),
            Err(e) => spec_parse(tokens_view(tokens@)) == Err::<ProgramModel, ErrModel>(
                err_view(e),
            ),
        },
{
    let ghost m = tokens_view(tokens@);
    let mut funcs: Vec<FuncDecl> = Vec::new();
    let mut stmts: Vec<Stmt> = Vec::new();
    let mut k: usize = 0;
    proof {
        assert(funcs_view(funcs@) =~= Seq::<FuncModel>::empty());
        assert(stmts_view(stmts@) =~= Seq::<StmtModel>::empty());
    }
    loop
        invariant
            m == tokens_view(tokens@),
            k <= tokens@.len(),
            spec_parse(m) == match spec_parse_top(m, k as int) {
                Ok(((fs, ss), _)) => Ok::<ProgramModel, ErrModel>(
                    ProgramModel {
                        funcs: funcs_view(funcs@) + fs,
                        stmts: stmts_view(stmts@) + ss,
                    },
                ),
                Err(e) => Err::<ProgramModel, ErrModel>(e),
            },
        decreases tokens@.len() - k,
    {
        if k >= tokens.len() {
            proof {
                assert(funcs_view(funcs@) + Seq::<FuncModel>::empty() =~= funcs_view(funcs@));
                assert(stmts_view(stmts@) + Seq::<StmtModel>::empty() =~= stmts_view(stmts@));
            }
            return Ok(Program { funcs, stmts });
        }
        if matches!(tokens[k].kind, TokenKind::KwFunction) {
            let (f, k2) = match parse_func_decl(tokens, k) {
                Ok(p) => p,
                Err(e) => {
                    return Err(e);
                },
            };
            proof {
                assert(funcs_view(funcs@.push(f)) =~= funcs_view(funcs@).push(func_view(f)));
                let rest = spec_parse_top(m, k2 as int);
                if rest is Ok {
                    assert(funcs_view(funcs@) + (seq![func_view(f)] + rest->Ok_0.0.0) =~= (
                    funcs_view(funcs@).push(func_view(f))) + rest->Ok_0.0.0);
                }
            }
            funcs.push(f);
            k = k2;
        } else {
            let (s, k2) = match parse_stmt(tokens, k) {
                Ok(p) => p,
                Err(e) => {
                    return Err(e);
                },
            };
            proof {
                assert(stmts_view(stmts@.push(s)) =~= stmts_view(stmts@).push(stmt_view(s)));
                let rest = spec_parse_top(m, k2 as int);
                if rest is Ok {
                    assert(stmts_view(stmts@) + (seq![stmt_view(s)] + rest->Ok_0.0.1) =~= (
                    stmts_view(stmts@).push(stmt_view(s))) + rest->Ok_0.0.1);
                }
            }
            stmts.push(s);
            k = k2;
        }
    }
}

} // verus!
