//! The code generator: syntax tree in, Rust source text out.
//!
//! Expressions are printed with the mirror image of the parser's
//! binding-power scheme: a child whose binding power is below what its
//! context requires is wrapped in parentheses, so the printed text
//! groups exactly as the tree does; an explicit group node is always
//! printed parenthesized.  Function declarations come first, then one
//! `main` block holding the top-level statements.  The functional
//! model (`spec_generate` and its helpers) produces the output as a
//! character sequence, and each executable function's contract says
//! it produces exactly that.

use vstd::prelude::*;
use crate::span::Span;
use crate::error::{ErrModel, Error, err_model, err_view};
use crate::span::spec_default_span;
use crate::ast::{
    BinaryOp, Callee, CalleeModel, Expr, ExprModel, FuncDecl, FuncModel, IfStmt, LitModel,
    Literal, Param, ParamModel, Program, ProgramModel, ReturnStmt, Stmt, StmtModel, TypeAnn,
    UnaryOp, VarDecl, WhileStmt, BlockStmt, expr_view, exprs_view, func_view, funcs_view,
    lit_view, param_view, params_view, program_view, stmt_view, stmts_view,
};
use crate::chars::{chars_to_string, push_str_chars};

verus! {

// ------------------------------------------------------------------
// Small text pieces of the model.
// ------------------------------------------------------------------

/// One-deeper indentation, pinned at the top of the range (which no
/// real tree's nesting reaches).
pub open spec fn sat_inc(n: usize) -> usize {
    if n < usize::MAX {
        (n + 1) as usize
    } else {
        n
    }
}

/// Four spaces per indentation level.
pub open spec fn spec_indent(n: usize) -> Seq<char>
    decreases n,
{
    if n == 0 {
        Seq::empty()
    } else {
        spec_indent((n - 1) as usize) + "    "@
    }
}

/// The decimal digit character of `d` (for `0 <= d <= 9`).
pub open spec fn dec_digit(d: int) -> char {
    if d == 0 {
        '0'
    } else if d == 1 {
        '1'
    } else if d == 2 {
        '2'
    } else if d == 3 {
        '3'
    } else if d == 4 {
        '4'
    } else if d == 5 {
        '5'
    } else if d == 6 {
        '6'
    } else if d == 7 {
        '7'
    } else if d == 8 {
        '8'
    } else {
        '9'
    }
}

/// The decimal digits of a non-negative number, most significant
/// first.
pub open spec fn dec_digits(n: int) -> Seq<char>
    decreases n,
{
    if n < 10 {
        seq![dec_digit(n)]
    } else {
        dec_digits(n / 10).push(dec_digit(n % 10))
    }
}

/// The decimal rendering of an integer, with a leading minus sign
/// when it is negative.
pub open spec fn spec_render_int(n: int) -> Seq<char> {
    if n < 0 {
        seq!['-'] + dec_digits(-n)
    } else {
        dec_digits(n)
    }
}

/// How one character is written inside a Rust string literal:
/// backslash, quote, newline, carriage return and tab take escapes,
/// everything else stands for itself.
pub open spec fn esc_of(c: char) -> Seq<char> {
    if c == '\\' {
        seq!['\\', '\\']
    } else if c == '"' {
        seq!['\\', '"']
    } else if c == '\n' {
        seq!['\\', 'n']
    } else if c == '\r' {
        seq!['\\', 'r']
    } else if c == '\t' {
        seq!['\\', 't']
    } else {
        seq![c]
    }
}

/// A string's contents re-escaped for a Rust string literal.
pub open spec fn spec_escape(s: Seq<char>) -> Seq<char>
    decreases s.len(),
{
    if s.len() == 0 {
        Seq::empty()
    } else {
        spec_escape(s.drop_last()) + esc_of(s.last())
    }
}

/// The printed form of a literal: numbers carry an explicit `i32`
/// suffix, strings become an owned-string construction, booleans are
/// their keywords.
pub open spec fn spec_gen_literal(l: LitModel) -> Seq<char> {
    match l {
        LitModel::Num(n) => spec_render_int(n as int) + "i32"@,
        LitModel::Str(s) => "String::from(\""@ + spec_escape(s) + "\")"@,
        LitModel::Bool(b) => if b {
            "true"@
        } else {
            "false"@
        },
    }
}

/// The printed operator of a binary operation.
pub open spec fn spec_binop_str(op: BinaryOp) -> Seq<char> {
    match op {
        BinaryOp::Add => "+"@,
        BinaryOp::Sub => "-"@,
        BinaryOp::Mul => "*"@,
        BinaryOp::Div => "/"@,
        BinaryOp::Mod => "%"@,
        BinaryOp::EqEq => "=="@,
        BinaryOp::NotEq => "!="@,
        BinaryOp::Lt => "<"@,
        BinaryOp::LtEq => "<="@,
        BinaryOp::Gt => ">"@,
        BinaryOp::GtEq => ">="@,
        BinaryOp::AndAnd => "&&"@,
        BinaryOp::OrOr => "||"@,
    }
}

/// The binding power a binary operation's printed form carries; the
/// same ordering the parser's table encodes.
pub open spec fn spec_binary_bp(op: BinaryOp) -> u8 {
    match op {
        BinaryOp::OrOr => 20u8,
        BinaryOp::AndAnd => 30u8,
        BinaryOp::EqEq | BinaryOp::NotEq => 40u8,
        BinaryOp::Lt | BinaryOp::LtEq | BinaryOp::Gt | BinaryOp::GtEq => 50u8,
        BinaryOp::Add | BinaryOp::Sub => 60u8,
        BinaryOp::Mul | BinaryOp::Div | BinaryOp::Mod => 70u8,
    }
}

// ------------------------------------------------------------------
// Expression emission.
// ------------------------------------------------------------------

/// The printed form of an expression together with the binding power
/// it carries, wrapped in parentheses whenever the context binds
/// tighter than the expression itself.  This is the generator's
/// correctness-critical rule: re-read under the same binding powers,
/// the text groups exactly as the tree does.
pub open spec fn spec_gen_expr_bp(e: ExprModel, parent_bp: u8) -> Result<Seq<char>, ErrModel>
    decreases e, 1int,
{
    let piece: Result<(Seq<char>, u8), ErrModel> = match e {
        ExprModel::Lit(l) => Ok((spec_gen_literal(l), 100u8)),
        ExprModel::Ident(s) => Ok((s, 100u8)),
        ExprModel::Group(inner) => match spec_gen_expr_bp(*inner, 0u8) {
            Err(er) => Err(er),
            Ok(t) => Ok(("("@ + t + ")"@, 100u8)),
        },
        ExprModel::Call(c, args) => match c {
            CalleeModel::ConsoleLog => if args.len() != 1 {
                Err(err_model("UnsupportedAst"@, spec_default_span()))
            } else {
                match spec_gen_expr_bp(args[0], 0u8) {
                    Err(er) => Err(er),
                    Ok(t) => Ok(("println!(\"{:?}\", "@ + t + ")"@, 90u8)),
                }
            },
            CalleeModel::Ident(name) => match spec_gen_args(args, 0) {
                Err(er) => Err(er),
                Ok(t) => Ok((name + "("@ + t + ")"@, 90u8)),
            },
        },
        ExprModel::Unary(op, sub) => match spec_gen_expr_bp(*sub, 80u8) {
            Err(er) => Err(er),
            Ok(t) => Ok(
                (
                    (if op is Not {
                        "!"@
                    } else {
                        "-"@
                    }) + t,
                    80u8,
                ),
            ),
        },
        ExprModel::Binary(op, l, r) => {
            let bp = spec_binary_bp(op);
            match spec_gen_expr_bp(*l, bp) {
                Err(er) => Err(er),
                Ok(lt) => match spec_gen_expr_bp(*r, (bp + 1) as u8) {
                    Err(er) => Err(er),
                    Ok(rt) => Ok((lt + " "@ + spec_binop_str(op) + " "@ + rt, bp)),
                },
            }
        },
    };
    match piece {
        Err(er) => Err(er),
        Ok((t, bp)) => if bp < parent_bp {
            Ok("("@ + t + ")"@)
        } else {
            Ok(t)
        },
    }
}

/// A call's arguments from index `i` on, printed at binding power
/// zero and joined by commas.
pub open spec fn spec_gen_args(args: Seq<ExprModel>, i: int) -> Result<Seq<char>, ErrModel>
    decreases args, args.len() - i,
{
    if 0 <= i < args.len() {
        match spec_gen_expr_bp(args[i], 0u8) {
            Err(er) => Err(er),
            Ok(t) => if i + 1 < args.len() {
                match spec_gen_args(args, i + 1) {
                    Err(er) => Err(er),
                    Ok(rest) => Ok(t + ", "@ + rest),
                }
            } else {
                Ok(t)
            },
        }
    } else {
        Ok(Seq::empty())
    }
}

// ------------------------------------------------------------------
// Statement emission.
// ------------------------------------------------------------------

/// Where a `return` stands: in the synthesized entry block, or in a
/// function with the given effective return type.
#[derive(Clone, Copy, Debug, PartialEq, Eq, Structural)]
pub enum ReturnCtx {
    Main,
    Function(TypeAnn),
}

/// The printed form of a variable declaration: a mutable binding for
/// `let`, an immutable one for `const`.
pub open spec fn spec_gen_var_decl(is_const: bool, name: Seq<char>, init: ExprModel) -> Result<
    Seq<char>,
    ErrModel,
> {
    match spec_gen_expr_bp(init, 0u8) {
        Err(er) => Err(er),
        Ok(t) => Ok(
            (if is_const {
                "let "@
            } else {
                "let mut "@
            }) + name + " = "@ + t + ";"@,
        ),
    }
}

/// The printed lines of a `return`, dependent on context: outside a
/// function with a value-bearing return type, a returned value is
/// evaluated and discarded before the bare `return;`; inside one, the
/// value is returned directly and its absence is the
/// `ReturnValueRequired` diagnostic.
pub open spec fn spec_gen_return(ctx: ReturnCtx, v: Option<ExprModel>, ind: usize) -> Result<
    Seq<char>,
    ErrModel,
> {
    let void_like = match ctx {
        ReturnCtx::Main => true,
        ReturnCtx::Function(t) => t is Void,
    };
    if void_like {
        match v {
            None => Ok(spec_indent(ind) + "return;\n"@),
            Some(e) => match spec_gen_expr_bp(e, 0u8) {
                Err(er) => Err(er),
                Ok(t) => Ok(
                    spec_indent(ind) + "let _ = "@ + t + ";\n"@ + spec_indent(ind) + "return;\n"@,
                ),
            },
        }
    } else {
        match v {
            Some(e) => match spec_gen_expr_bp(e, 0u8) {
                Err(er) => Err(er),
                Ok(t) => Ok(spec_indent(ind) + "return "@ + t + ";\n"@),
            },
            None => Err(err_model("ReturnValueRequired"@, spec_default_span())),
        }
    }
}

/// The printed form of one statement at an indentation level.
pub open spec fn spec_gen_stmt_text(s: StmtModel, ind: usize, ctx: ReturnCtx) -> Result<
    Seq<char>,
    ErrModel,
>
    decreases s, 0int, 1int,
{
    match s {
        StmtModel::VarDecl { is_const, name, init } => match spec_gen_var_decl(
            is_const,
            name,
            init,
        ) {
            Err(er) => Err(er),
            Ok(t) => Ok(spec_indent(ind) + t + "\n"@),
        },
        StmtModel::Assign { name, value } => match spec_gen_expr_bp(value, 0u8) {
            Err(er) => Err(er),
            Ok(t) => Ok(spec_indent(ind) + name + " = "@ + t + ";\n"@),
        },
        StmtModel::ExprStmt(e) => match spec_gen_expr_bp(e, 0u8) {
            Err(er) => Err(er),
            Ok(t) => Ok(spec_indent(ind) + t + ";\n"@),
        },
        StmtModel::Return(v) => spec_gen_return(ctx, v, ind),
        StmtModel::Block(ss) => match spec_gen_stmts_text(ss, 0, sat_inc(ind), ctx) {
            Err(er) => Err(er),
            Ok(t) => Ok(spec_indent(ind) + "{\n"@ + t + spec_indent(ind) + "}\n"@),
        },
        StmtModel::If(cond, then_s, else_s) => match spec_gen_expr_bp(cond, 0u8) {
            Err(er) => Err(er),
            Ok(ct) => match spec_gen_branch(*then_s, sat_inc(ind), ctx) {
                Err(er) => Err(er),
                Ok(tt) => match spec_gen_branch(*else_s, sat_inc(ind), ctx) {
                    Err(er) => Err(er),
                    Ok(et) => Ok(
                        spec_indent(ind) + "if "@ + ct + " {\n"@ + tt + spec_indent(ind) + "}"@
                            + " else {\n"@ + et + spec_indent(ind) + "}\n"@,
                    ),
                },
            },
        },
        StmtModel::While(cond, body) => match spec_gen_expr_bp(cond, 0u8) {
            Err(er) => Err(er),
            Ok(ct) => match spec_gen_branch(*body, sat_inc(ind), ctx) {
                Err(er) => Err(er),
                Ok(bt) => Ok(
                    spec_indent(ind) + "while "@ + ct + " {\n"@ + bt + spec_indent(ind) + "}\n"@,
                ),
            },
        },
    }
}

/// A branch or loop body printed as block contents: a block statement
/// contributes its statements, a bare single statement is printed as
/// if it were a one-statement block.
pub open spec fn spec_gen_branch(s: StmtModel, ind: usize, ctx: ReturnCtx) -> Result<
    Seq<char>,
    ErrModel,
>
    decreases s, 0int, 2int,
{
    match s {
        StmtModel::Block(ss) => spec_gen_stmts_text(ss, 0, ind, ctx),
        _ => spec_gen_stmt_text(s, ind, ctx),
    }
}

/// The printed forms of the statements from index `i` on, in order.
pub open spec fn spec_gen_stmts_text(ss: Seq<StmtModel>, i: int, ind: usize, ctx: ReturnCtx) -> Result<
    Seq<char>,
    ErrModel,
>
    decreases ss, ss.len() - i, 0int,
{
    if 0 <= i < ss.len() {
        match spec_gen_stmt_text(ss[i], ind, ctx) {
            Err(er) => Err(er),
            Ok(t) => match spec_gen_stmts_text(ss, i + 1, ind, ctx) {
                Err(er) => Err(er),
                Ok(rest) => Ok(t + rest),
            },
        }
    } else {
        Ok(Seq::empty())
    }
}

// ------------------------------------------------------------------
// Functions and the whole program.
// ------------------------------------------------------------------

/// Whether a statement contains a reachable `return` with a value; a
/// conservative syntactic scan, descending into blocks, both `if`
/// branches and `while` bodies.
pub open spec fn spec_stmt_has_ret_val(s: StmtModel) -> bool
    decreases s, 0int, 1int,
{
    match s {
        StmtModel::Return(v) => v is Some,
        StmtModel::Block(ss) => spec_stmts_have_ret_val(ss, 0),
        StmtModel::If(_, then_s, else_s) => spec_stmt_has_ret_val(*then_s) || spec_stmt_has_ret_val(
            *else_s,
        ),
        StmtModel::While(_, body) => spec_stmt_has_ret_val(*body),
        _ => false,
    }
}

/// Whether any statement from index `i` on contains a value-bearing
/// `return`.
pub open spec fn spec_stmts_have_ret_val(ss: Seq<StmtModel>, i: int) -> bool
    decreases ss, ss.len() - i, 0int,
{
    if 0 <= i < ss.len() {
        spec_stmt_has_ret_val(ss[i]) || spec_stmts_have_ret_val(ss, i + 1)
    } else {
        false
    }
}

/// A function's effective return type: as declared, else inferred as
/// numeric when the body holds a value-bearing `return` and void when
/// it does not.
pub open spec fn spec_effective_ret(f: FuncModel) -> TypeAnn {
    match f.ret_type {
        Some(t) => t,
        None => if spec_stmts_have_ret_val(f.body, 0) {
            TypeAnn::Number
        } else {
            TypeAnn::Void
        },
    }
}

/// The output-language name of each type annotation.
pub open spec fn spec_rust_type(t: TypeAnn) -> Seq<char> {
    match t {
        TypeAnn::Number => "i32"@,
        TypeAnn::String => "String"@,
        TypeAnn::Boolean => "bool"@,
        TypeAnn::Void => "()"@,
    }
}

/// A parameter's printed form; an unannotated parameter defaults to
/// the numeric type.
pub open spec fn spec_gen_param(p: ParamModel) -> Seq<char> {
    p.name + ": "@ + spec_rust_type(
        match p.ty {
            Some(t) => t,
            None => TypeAnn::Number,
        },
    )
}

/// The printed parameter list from index `i` on, joined by commas.
pub open spec fn spec_gen_params(ps: Seq<ParamModel>, i: int) -> Seq<char>
    decreases ps.len() - i,
{
    if 0 <= i < ps.len() {
        if i + 1 < ps.len() {
            spec_gen_param(ps[i]) + ", "@ + spec_gen_params(ps, i + 1)
        } else {
            spec_gen_param(ps[i])
        }
    } else {
        Seq::empty()
    }
}

/// The printed form of one function declaration: its signature (with
/// `-> type` only for a non-void effective type) and its body, each
/// body statement printed in the function's return context.
pub open spec fn spec_gen_func(f: FuncModel) -> Result<Seq<char>, ErrModel> {
    let ret = spec_effective_ret(f);
    let sig = "fn "@ + f.name + "("@ + spec_gen_params(f.params, 0) + ")"@ + (if ret is Void {
        Seq::<char>::empty()
    } else {
        " -> "@ + spec_rust_type(ret)
    }) + " {\n"@;
    match spec_gen_stmts_text(f.body, 0, 1, ReturnCtx::Function(ret)) {
        Err(er) => Err(er),
        Ok(t) => Ok(sig + t + "}\n"@),
    }
}

/// The printed function declarations from index `i` on, each followed
/// by a blank line.
pub open spec fn spec_gen_funcs(fs: Seq<FuncModel>, i: int) -> Result<Seq<char>, ErrModel>
    decreases fs.len() - i,
{
    if 0 <= i < fs.len() {
        match spec_gen_func(fs[i]) {
            Err(er) => Err(er),
            Ok(t) => match spec_gen_funcs(fs, i + 1) {
                Err(er) => Err(er),
                Ok(rest) => Ok(t + "\n"@ + rest),
            },
        }
    } else {
        Ok(Seq::empty())
    }
}

/// What generating a program denotes: every function declaration in
/// source order, then one `main` block holding the top-level
/// statements.
pub open spec fn spec_generate(p: ProgramModel) -> Result<Seq<char>, ErrModel> {
    match spec_gen_funcs(p.funcs, 0) {
        Err(er) => Err(er),
        Ok(fs) => match spec_gen_stmts_text(p.stmts, 0, 1, ReturnCtx::Main) {
            Err(er) => Err(er),
            Ok(body) => Ok(fs + "fn main() {\n"@ + body + "}\n"@),
        },
    }
}

/// The text with its trailing newlines removed (the single-statement
/// printing entry point strips them).
pub open spec fn spec_trim_newlines(s: Seq<char>) -> Seq<char>
    decreases s.len(),
{
    if s.len() > 0 && s.last() == '\n' {
        spec_trim_newlines(s.drop_last())
    } else {
        s
    }
}


// ------------------------------------------------------------------
// The executable generator.
// ------------------------------------------------------------------

/// Appends four spaces per indentation level.
fn push_indent(out: &mut Vec<char>, indent: usize)
    ensures
        final(out)@ == old(out)@ + spec_indent(indent),
{
    let mut i: usize = 0;
    while i < indent
        invariant
            i <= indent,
            out@ == old(out)@ + spec_indent(i),
        decreases indent - i,
    {
        push_str_chars(out, "    ");
        i += 1;
    }
}

/// The decimal digit character of `d`.
fn dec_digit_char(d: u64) -> (c: char)
    ensures
        c == dec_digit(d as int),
{
    if d == 0 {
        '0'
    } else if d == 1 {
        '1'
    } else if d == 2 {
        '2'
    } else if d == 3 {
        '3'
    } else if d == 4 {
        '4'
    } else if d == 5 {
        '5'
    } else if d == 6 {
        '6'
    } else if d == 7 {
        '7'
    } else if d == 8 {
        '8'
    } else {
        '9'
    }
}

/// Appends the decimal digits of a non-negative number.
fn push_dec(out: &mut Vec<char>, v: u64)
    ensures
        final(out)@ == old(out)@ + dec_digits(v as int),
    decreases v,
{
    if v < 10 {
        let c = dec_digit_char(v);
        out.push(c);
    } else {
        push_dec(out, v / 10);
        let c = dec_digit_char(v % 10);
        out.push(c);
    }
}

/// Appends the decimal rendering of a 32-bit integer.
fn push_i32(out: &mut Vec<char>, n: i32)
    ensures
        final(out)@ == old(out)@ + spec_render_int(n as int),
{
    if n < 0 {
        out.push('-');
        let mag: u64 = (-(n as i64)) as u64;
        push_dec(out, mag);
    } else {
        push_dec(out, n as u64);
    }
}

/// Appends a string's contents re-escaped for a Rust string literal.
fn escape_rust_string(out: &mut Vec<char>, s: &str)
    ensures
        final(out)@ == old(out)@ + spec_escape(s@),
{
    let n = s.unicode_len();
    let mut i: usize = 0;
    proof {
        assert(s@.subrange(0, 0) =~= Seq::<char>::empty());
    }
    while i < n
        invariant
            n == s@.len(),
            i <= n,
            out@ == old(out)@ + spec_escape(s@.subrange(0, i as int)),
        decreases n - i,
    {
        let c = s.get_char(i);
        if c == '\\' {
            out.push('\\');
            out.push('\\');
        } else if c == '"' {
            out.push('\\');
            out.push('"');
        } else if c == '\n' {
            out.push('\\');
            out.push('n');
        } else if c == '\r' {
            out.push('\\');
            out.push('r');
        } else if c == '\t' {
            out.push('\\');
            out.push('t');
        } else {
            out.push(c);
        }
        proof {
            let pre = s@.subrange(0, i as int);
            let post = s@.subrange(0, i + 1);
            assert(post.drop_last() =~= pre);
            assert(post.last() == s@[i as int]);
            assert(out@ =~= old(out)@ + spec_escape(post));
        }
        i += 1;
    }
    proof {
        assert(s@.subrange(0, n as int) =~= s@);
    }
}

/// Appends the printed form of a literal.
fn gen_literal_expr(out: &mut Vec<char>, lit: &Literal)
    ensures
        final(out)@ == old(out)@ + spec_gen_literal(lit_view(*lit)),
{
    match lit {
        Literal::Number(n) => {
            push_i32(out, *n);
            push_str_chars(out, "i32");
        },
        Literal::Bool(b) => {
            if *b {
                push_str_chars(out, "true");
            } else {
                push_str_chars(out, "false");
            }
        },
        Literal::String(s) => {
            push_str_chars(out, "String::from(\"");
            escape_rust_string(out, s.as_str());
            push_str_chars(out, "\")");
        },
    }
}

/// The printed operator of a binary operation.
fn binop_str(op: BinaryOp) -> (r: &'static str)
    ensures
        r@ == spec_binop_str(op),
{
    match op {
        BinaryOp::Add => "+",
        BinaryOp::Sub => "-",
        BinaryOp::Mul => "*",
        BinaryOp::Div => "/",
        BinaryOp::Mod => "%",
        BinaryOp::EqEq => "==",
        BinaryOp::NotEq => "!=",
        BinaryOp::Lt => "<",
        BinaryOp::LtEq => "<=",
        BinaryOp::Gt => ">",
        BinaryOp::GtEq => ">=",
        BinaryOp::AndAnd => "&&",
        BinaryOp::OrOr => "||",
    }
}

/// The binding power shared with the parser's table.
fn binary_bp(op: BinaryOp) -> (r: u8)
    ensures
        r == spec_binary_bp(op),
{
    match op {
        BinaryOp::OrOr => 20,
        BinaryOp::AndAnd => 30,
        BinaryOp::EqEq | BinaryOp::NotEq => 40,
        BinaryOp::Lt | BinaryOp::LtEq | BinaryOp::Gt | BinaryOp::GtEq => 50,
        BinaryOp::Add | BinaryOp::Sub => 60,
        BinaryOp::Mul | BinaryOp::Div | BinaryOp::Mod => 70,
    }
}



/// Prints the arguments of a call from index `k` on, at binding power
/// zero and joined by commas, appending to `out`.
fn gen_args_into(out: &mut Vec<char>, args: &Vec<Expr>, k: usize) -> (r: Result<(), Error>)
    requires
        k <= args@.len(),
    ensures
        match r {
            Ok(_) => spec_gen_args(exprs_view(args@), k as int) is Ok && final(out)@ == old(out)@
                + spec_gen_args(exprs_view(args@), k as int)->Ok_0,
            Err(e) => spec_gen_args(exprs_view(args@), k as int) == Err::<Seq<char>, ErrModel>(
                err_view(e),
            ),
        },
    decreases args@, args@.len() - k, 2int,
{
    let ghost am = exprs_view(args@);
    if k >= args.len() {
        proof {
            assert(old(out)@ + Seq::<char>::empty() =~= old(out)@);
        }
        return Ok(());
    }
    let mut t = match gen_expr_bp(&args[k], 0) {
        Ok(t) => t,
        Err(e) => {
            return Err(e);
        },
    };
    proof {
        assert(am[k as int] == expr_view(args@[k as int]));
    }
    out.append(&mut t);
    if k + 1 < args.len() {
        push_str_chars(out, ", ");
        match gen_args_into(out, args, k + 1) {
            Ok(_) => Ok(()),
            Err(e) => {
                return Err(e);
            },
        }
    } else {
        Ok(())
    }
}

/// Prints one expression at the binding power its context requires,
/// wrapping it in parentheses when its own binding power is lower.
fn gen_expr_bp(e: &Expr, parent_bp: u8) -> (r: Result<Vec<char>, Error>)
    ensures
        match r {
            Ok(v) => spec_gen_expr_bp(expr_view(*e), parent_bp) == Ok::<Seq<char>, ErrModel>(v@),
            Err(er) => spec_gen_expr_bp(expr_view(*e), parent_bp) == Err::<Seq<char>, ErrModel>(
                err_view(er),
            ),
        },
    decreases *e, 3int,
{
    let mut t: Vec<char> = Vec::new();
    let bp: u8;
    match e {
        Expr::Literal(l) => {
            gen_literal_expr(&mut t, l);
            proof {
                assert(t@ =~= spec_gen_literal(lit_view(*l)));
            }
            bp = 100;
        },
        Expr::Ident(s) => {
            push_str_chars(&mut t, s.as_str());
            proof {
                assert(t@ =~= s@);
            }
            bp = 100;
        },
        Expr::Group(inner) => {
            let mut it = match gen_expr_bp(inner, 0) {
                Ok(v) => v,
                Err(er) => {
                    return Err(er);
                },
            };
            let ghost itv = it@;
            push_str_chars(&mut t, "(");
            t.append(&mut it);
            push_str_chars(&mut t, ")");
            proof {
                assert(t@ =~= "("@ + itv + ")"@);
            }
            bp = 100;
        },
        Expr::Call(c) => {
            match &c.callee {
                Callee::ConsoleLog => {
                    if c.args.len() != 1 {
                        return Err(Error::new("UnsupportedAst", Span::default()));
                    }
                    let mut at = match gen_expr_bp(&c.args[0], 0) {
                        Ok(v) => v,
                        Err(er) => {
                            return Err(er);
                        },
                    };
                    let ghost atv = at@;
                    proof {
                        assert(exprs_view(c.args@)[0] == expr_view(c.args@[0]));
                    }
                    push_str_chars(&mut t, "println!(\"{:?}\", ");
                    t.append(&mut at);
                    push_str_chars(&mut t, ")");
                    proof {
                        assert(t@ =~= "println!(\"{:?}\", "@ + atv + ")"@);
                    }
                    bp = 90;
                },
                Callee::Ident(name) => {
                    push_str_chars(&mut t, name.as_str());
                    push_str_chars(&mut t, "(");
                    match gen_args_into(&mut t, &c.args, 0) {
                        Ok(_) => {},
                        Err(er) => {
                            return Err(er);
                        },
                    }
                    push_str_chars(&mut t, ")");
                    proof {
                        let argsv = spec_gen_args(exprs_view(c.args@), 0)->Ok_0;
                        assert(t@ =~= name@ + "("@ + argsv + ")"@);
                    }
                    bp = 90;
                },
            }
        },
        Expr::Unary(u) => {
            let mut it = match gen_expr_bp(&u.expr, 80) {
                Ok(v) => v,
                Err(er) => {
                    return Err(er);
                },
            };
            let ghost itv = it@;
            match u.op {
                UnaryOp::Not => push_str_chars(&mut t, "!"),
                UnaryOp::Neg => push_str_chars(&mut t, "-"),
            }
            t.append(&mut it);
            proof {
                assert(t@ =~= (if u.op is Not {
                    "!"@
                } else {
                    "-"@
                }) + itv);
            }
            bp = 80;
        },
        Expr::Binary(b) => {
            let obp = binary_bp(b.op);
            let mut lt = match gen_expr_bp(&b.left, obp) {
                Ok(v) => v,
                Err(er) => {
                    return Err(er);
                },
            };
            let mut rt = match gen_expr_bp(&b.right, obp + 1) {
                Ok(v) => v,
                Err(er) => {
                    return Err(er);
                },
            };
            let ghost ltv = lt@;
            let ghost rtv = rt@;
            t.append(&mut lt);
            push_str_chars(&mut t, " ");
            push_str_chars(&mut t, binop_str(b.op));
            push_str_chars(&mut t, " ");
            t.append(&mut rt);
            proof {
                assert(t@ =~= ltv + " "@ + spec_binop_str(b.op) + " "@ + rtv);
            }
            bp = obp;
        },
    }
    if bp < parent_bp {
        let ghost tv = t@;
        let mut w: Vec<char> = Vec::new();
        push_str_chars(&mut w, "(");
        w.append(&mut t);
        push_str_chars(&mut w, ")");
        proof {
            assert(w@ =~= "("@ + tv + ")"@);
        }
        Ok(w)
    } else {
        Ok(t)
    }
}

/// Prints one expression at binding power zero, as owned text.
pub fn gen_expr(expr: &Expr) -> (r: Result<String, Error>)
    ensures
        match r {
            Ok(s) => spec_gen_expr_bp(expr_view(*expr), 0u8) == Ok::<Seq<char>, ErrModel>(s@),
            Err(er) => spec_gen_expr_bp(expr_view(*expr), 0u8) == Err::<Seq<char>, ErrModel>(
                err_view(er),
            ),
        },
{
    match gen_expr_bp(expr, 0) {
        Ok(v) => Ok(chars_to_string(&v)),
        Err(er) => Err(er),
    }
}


/// Appends the printed form of a variable declaration (without its
/// indentation or line break).
fn gen_var_decl(v: &VarDecl) -> (r: Result<Vec<char>, Error>)
    ensures
        match r {
            Ok(t) => spec_gen_var_decl(v.is_const, v.name@, expr_view(v.init)) == Ok::<
                Seq<char>,
                ErrModel,
            >(t@),
            Err(e) => spec_gen_var_decl(v.is_const, v.name@, expr_view(v.init)) == Err::<
                Seq<char>,
                ErrModel,
            >(err_view(e)),
        },
{
    let mut et = match gen_expr_bp(&v.init, 0) {
        Ok(t) => t,
        Err(e) => {
            return Err(e);
        },
    };
    let ghost etv = et@;
    let mut t: Vec<char> = Vec::new();
    if v.is_const {
        push_str_chars(&mut t, "let ");
    } else {
        push_str_chars(&mut t, "let mut ");
    }
    push_str_chars(&mut t, v.name.as_str());
    push_str_chars(&mut t, " = ");
    t.append(&mut et);
    push_str_chars(&mut t, ";");
    proof {
        assert(t@ =~= (if v.is_const {
            "let "@
        } else {
            "let mut "@
        }) + v.name@ + " = "@ + etv + ";"@);
    }
    Ok(t)
}

/// Appends the printed forms of the statements from index `k` on.
fn gen_stmts_into(
    out: &mut Vec<char>,
    ss: &Vec<Stmt>,
    k: usize,
    indent: usize,
    ctx: ReturnCtx,
) -> (r: Result<(), Error>)
    requires
        k <= ss@.len(),
    ensures
        match r {
            Ok(_) => spec_gen_stmts_text(stmts_view(ss@), k as int, indent, ctx) is Ok && final(out)@ == old(out)@ + spec_gen_stmts_text(stmts_view(ss@), k as int, indent, ctx)->Ok_0,
            Err(e) => spec_gen_stmts_text(stmts_view(ss@), k as int, indent, ctx) == Err::<
                Seq<char>,
                ErrModel,
            >(err_view(e)),
        },
    decreases ss@, ss@.len() - k, 0int,
{
    if k >= ss.len() {
        proof {
            assert(old(out)@ + Seq::<char>::empty() =~= old(out)@);
        }
        return Ok(());
    }
    proof {
        assert(stmts_view(ss@)[k as int] == stmt_view(ss@[k as int]));
    }
    match gen_stmt_into(out, indent, ctx, &ss[k]) {
        Ok(_) => {},
        Err(e) => {
            return Err(e);
        },
    }
    match gen_stmts_into(out, ss, k + 1, indent, ctx) {
        Ok(_) => Ok(()),
        Err(e) => {
            return Err(e);
        },
    }
}

/// Appends a branch or loop body as block contents: a block statement
/// contributes its statements, a bare single statement prints as a
/// one-statement block.
fn gen_block_body(out: &mut Vec<char>, indent: usize, ctx: ReturnCtx, stmt: &Stmt) -> (r: Result<
    (),
    Error,
>)
    ensures
        match r {
            Ok(_) => spec_gen_branch(stmt_view(*stmt), indent, ctx) is Ok && final(out)@ == old(
                out,
            )@ + spec_gen_branch(stmt_view(*stmt), indent, ctx)->Ok_0,
            Err(e) => spec_gen_branch(stmt_view(*stmt), indent, ctx) == Err::<Seq<char>, ErrModel>(
                err_view(e),
            ),
        },
    decreases *stmt, 0int, 2int,
{
    match stmt {
        Stmt::Block(b) => gen_stmts_into(out, &b.stmts, 0, indent, ctx),
        _ => gen_stmt_into(out, indent, ctx, stmt),
    }
}

/// Appends the printed lines of a `return` in its context.
fn gen_return_ctx(out: &mut Vec<char>, ctx: ReturnCtx, indent: usize, rs: &ReturnStmt) -> (r:
    Result<(), Error>)
    ensures
        ({
            let vm = match rs.value {
                Some(e) => Some(expr_view(e)),
                None => None,
            };
            match r {
                Ok(_) => spec_gen_return(ctx, vm, indent) is Ok && final(out)@ == old(out)@
                    + spec_gen_return(ctx, vm, indent)->Ok_0,
                Err(e) => spec_gen_return(ctx, vm, indent) == Err::<Seq<char>, ErrModel>(
                    err_view(e),
                ),
            }
        }),
{
    let void_like = match ctx {
        ReturnCtx::Main => true,
        ReturnCtx::Function(t) => matches!(t, TypeAnn::Void),
    };
    match &rs.value {
        None => {
            if void_like {
                push_indent(out, indent);
                push_str_chars(out, "return;\n");
                proof {
                    assert(out@ =~= old(out)@ + (spec_indent(indent) + "return;\n"@));
                }
                Ok(())
            } else {
                Err(Error::new("ReturnValueRequired", Span::default()))
            }
        },
        Some(e) => {
            let mut t = match gen_expr_bp(e, 0) {
                Ok(t) => t,
                Err(er) => {
                    return Err(er);
                },
            };
            let ghost tv = t@;
            if void_like {
                push_indent(out, indent);
                push_str_chars(out, "let _ = ");
                out.append(&mut t);
                push_str_chars(out, ";\n");
                push_indent(out, indent);
                push_str_chars(out, "return;\n");
                proof {
                    assert(out@ =~= old(out)@ + (spec_indent(indent) + "let _ = "@ + tv + ";\n"@
                        + spec_indent(indent) + "return;\n"@));
                }
                Ok(())
            } else {
                push_indent(out, indent);
                push_str_chars(out, "return ");
                out.append(&mut t);
                push_str_chars(out, ";\n");
                proof {
                    assert(out@ =~= old(out)@ + (spec_indent(indent) + "return "@ + tv + ";\n"@));
                }
                Ok(())
            }
        },
    }
}

/// Appends a block statement's printed form.
fn gen_block_ctx(out: &mut Vec<char>, ctx: ReturnCtx, b: &BlockStmt, indent: usize) -> (r: Result<
    (),
    Error,
>)
    ensures
        ({
            let sm = StmtModel::Block(stmts_view(b.stmts@));
            match r {
                Ok(_) => spec_gen_stmt_text(sm, indent, ctx) is Ok && final(out)@ == old(out)@
                    + spec_gen_stmt_text(sm, indent, ctx)->Ok_0,
                Err(e) => spec_gen_stmt_text(sm, indent, ctx) == Err::<Seq<char>, ErrModel>(
                    err_view(e),
                ),
            }
        }),
    decreases *b, 0int, 0int,
{
    let ind2 = if indent < usize::MAX {
        indent + 1
    } else {
        indent
    };
    push_indent(out, indent);
    push_str_chars(out, "{\n");
    match gen_stmts_into(out, &b.stmts, 0, ind2, ctx) {
        Ok(_) => {},
        Err(e) => {
            return Err(e);
        },
    }
    push_indent(out, indent);
    push_str_chars(out, "}\n");
    proof {
        let body = spec_gen_stmts_text(stmts_view(b.stmts@), 0, ind2, ctx)->Ok_0;
        assert(out@ =~= old(out)@ + (spec_indent(indent) + "{\n"@ + body + spec_indent(indent)
            + "}\n"@));
    }
    Ok(())
}

/// Appends an `if`/`else` statement's printed form: both branches as
/// delimited blocks, an unbraced single-statement branch printed as
/// if it were a one-statement block.
#[verifier::rlimit(100)]
#[verifier::spinoff_prover]
fn gen_if_ctx(out: &mut Vec<char>, ctx: ReturnCtx, i: &IfStmt, indent: usize) -> (r: Result<
    (),
    Error,
>)
    ensures
        ({
            let sm = StmtModel::If(
                expr_view(i.cond),
                Box::new(stmt_view(*i.then_branch)),
                Box::new(stmt_view(*i.else_branch)),
            );
            match r {
                Ok(_) => spec_gen_stmt_text(sm, indent, ctx) is Ok && final(out)@ == old(out)@
                    + spec_gen_stmt_text(sm, indent, ctx)->Ok_0,
                Err(e) => spec_gen_stmt_text(sm, indent, ctx) == Err::<Seq<char>, ErrModel>(
                    err_view(e),
                ),
            }
        }),
    decreases *i, 0int, 0int,
{
    let ind2 = if indent < usize::MAX {
        indent + 1
    } else {
        indent
    };
    let mut ct = match gen_expr_bp(&i.cond, 0) {
        Ok(t) => t,
        Err(e) => {
            return Err(e);
        },
    };
    let ghost ctv = ct@;
    push_indent(out, indent);
    push_str_chars(out, "if ");
    out.append(&mut ct);
    push_str_chars(out, " {\n");
    match gen_block_body(out, ind2, ctx, &i.then_branch) {
        Ok(_) => {},
        Err(e) => {
            return Err(e);
        },
    }
    push_indent(out, indent);
    push_str_chars(out, "}");
    push_str_chars(out, " else {\n");
    match gen_block_body(out, ind2, ctx, &i.else_branch) {
        Ok(_) => {},
        Err(e) => {
            return Err(e);
        },
    }
    push_indent(out, indent);
    push_str_chars(out, "}\n");
    proof {
        let tt = spec_gen_branch(stmt_view(*i.then_branch), ind2, ctx)->Ok_0;
        let et = spec_gen_branch(stmt_view(*i.else_branch), ind2, ctx)->Ok_0;
        assert(out@ =~= old(out)@ + (spec_indent(indent) + "if "@ + ctv + " {\n"@ + tt
            + spec_indent(indent) + "}"@ + " else {\n"@ + et + spec_indent(indent) + "}\n"@));
    }
    Ok(())
}

/// Appends a `while` statement's printed form.
#[verifier::rlimit(50)]
fn gen_while_ctx(out: &mut Vec<char>, ctx: ReturnCtx, w: &WhileStmt, indent: usize) -> (r: Result<
    (),
    Error,
>)
    ensures
        ({
            let sm = StmtModel::While(expr_view(w.cond), Box::new(stmt_view(*w.body)));
            match r {
                Ok(_) => spec_gen_stmt_text(sm, indent, ctx) is Ok && final(out)@ == old(out)@
                    + spec_gen_stmt_text(sm, indent, ctx)->Ok_0,
                Err(e) => spec_gen_stmt_text(sm, indent, ctx) == Err::<Seq<char>, ErrModel>(
                    err_view(e),
                ),
            }
        }),
    decreases *w, 0int, 0int,
{
    let ind2 = if indent < usize::MAX {
        indent + 1
    } else {
        indent
    };
    let mut ct = match gen_expr_bp(&w.cond, 0) {
        Ok(t) => t,
        Err(e) => {
            return Err(e);
        },
    };
    let ghost ctv = ct@;
    push_indent(out, indent);
    push_str_chars(out, "while ");
    out.append(&mut ct);
    push_str_chars(out, " {\n");
    match gen_block_body(out, ind2, ctx, &w.body) {
        Ok(_) => {},
        Err(e) => {
            return Err(e);
        },
    }
    push_indent(out, indent);
    push_str_chars(out, "}\n");
    proof {
        let bt = spec_gen_branch(stmt_view(*w.body), ind2, ctx)->Ok_0;
        assert(out@ =~= old(out)@ + (spec_indent(indent) + "while "@ + ctv + " {\n"@ + bt
            + spec_indent(indent) + "}\n"@));
    }
    Ok(())
}

/// Appends the printed form of one statement at an indentation level,
/// in the given return context.
fn gen_stmt_into(out: &mut Vec<char>, indent: usize, ctx: ReturnCtx, stmt: &Stmt) -> (r: Result<
    (),
    Error,
>)
    ensures
        match r {
            Ok(_) => spec_gen_stmt_text(stmt_view(*stmt), indent, ctx) is Ok && final(out)@ == old(
                out)@ + spec_gen_stmt_text(stmt_view(*stmt), indent, ctx)->Ok_0,
            Err(e) => spec_gen_stmt_text(stmt_view(*stmt), indent, ctx) == Err::<
                Seq<char>,
                ErrModel,
            >(err_view(e)),
        },
    decreases *stmt, 0int, 1int,
{
    match stmt {
        Stmt::VarDecl(v) => {
            let mut t = match gen_var_decl(v) {
                Ok(t) => t,
                Err(e) => {
                    return Err(e);
                },
            };
            let ghost tv = t@;
            push_indent(out, indent);
            out.append(&mut t);
            push_str_chars(out, "\n");
            proof {
                assert(out@ =~= old(out)@ + (spec_indent(indent) + tv + "\n"@));
            }
            Ok(())
        },
        Stmt::Assign(a) => {
            let mut t = match gen_expr_bp(&a.value, 0) {
                Ok(t) => t,
                Err(e) => {
                    return Err(e);
                },
            };
            let ghost tv = t@;
            push_indent(out, indent);
            push_str_chars(out, a.name.as_str());
            push_str_chars(out, " = ");
            out.append(&mut t);
            push_str_chars(out, ";\n");
            proof {
                assert(out@ =~= old(out)@ + (spec_indent(indent) + a.name@ + " = "@ + tv
                    + ";\n"@));
            }
            Ok(())
        },
        Stmt::ExprStmt(e) => {
            let mut t = match gen_expr_bp(e, 0) {
                Ok(t) => t,
                Err(er) => {
                    return Err(er);
                },
            };
            let ghost tv = t@;
            push_indent(out, indent);
            out.append(&mut t);
            push_str_chars(out, ";\n");
            proof {
                assert(out@ =~= old(out)@ + (spec_indent(indent) + tv + ";\n"@));
            }
            Ok(())
        },
        Stmt::Return(rs) => gen_return_ctx(out, ctx, indent, rs),
        Stmt::Block(b) => gen_block_ctx(out, ctx, b, indent),
        Stmt::If(i) => gen_if_ctx(out, ctx, i, indent),
        Stmt::While(w) => gen_while_ctx(out, ctx, w, indent),
    }
}


/// Whether any statement from index `k` on contains a value-bearing
/// `return`.
fn stmts_have_return_value(ss: &Vec<Stmt>, k: usize) -> (r: bool)
    requires
        k <= ss@.len(),
    ensures
        r == spec_stmts_have_ret_val(stmts_view(ss@), k as int),
    decreases ss@, ss@.len() - k, 0int,
{
    if k >= ss.len() {
        false
    } else {
        proof {
            assert(stmts_view(ss@)[k as int] == stmt_view(ss@[k as int]));
        }
        stmt_has_return_value(&ss[k]) || stmts_have_return_value(ss, k + 1)
    }
}

/// Whether a statement contains a value-bearing `return`: the
/// conservative syntactic scan behind return-type inference.
fn stmt_has_return_value(s: &Stmt) -> (r: bool)
    ensures
        r == spec_stmt_has_ret_val(stmt_view(*s)),
    decreases *s, 0int, 1int,
{
    match s {
        Stmt::Return(rs) => matches!(rs.value, Some(_)),
        Stmt::Block(b) => stmts_have_return_value(&b.stmts, 0),
        Stmt::If(i) => stmt_has_return_value(&i.then_branch) || stmt_has_return_value(
            &i.else_branch,
        ),
        Stmt::While(w) => stmt_has_return_value(&w.body),
        _ => false,
    }
}

/// Whether a function body contains a value-bearing `return`.
fn func_body_has_return_value(b: &BlockStmt) -> (r: bool)
    ensures
        r == spec_stmts_have_ret_val(stmts_view(b.stmts@), 0),
{
    stmts_have_return_value(&b.stmts, 0)
}

/// A function's effective return type: as declared, else inferred
/// from its body.
fn effective_ret_type(f: &FuncDecl) -> (r: TypeAnn)
    ensures
        r == spec_effective_ret(func_view(*f)),
{
    match f.ret_type {
        Some(t) => t,
        None => {
            if func_body_has_return_value(&f.body) {
                TypeAnn::Number
            } else {
                TypeAnn::Void
            }
        },
    }
}

/// The output-language name of a type annotation.
fn rust_type(t: TypeAnn) -> (r: &'static str)
    ensures
        r@ == spec_rust_type(t),
{
    match t {
        TypeAnn::Number => "i32",
        TypeAnn::String => "String",
        TypeAnn::Boolean => "bool",
        TypeAnn::Void => "()",
    }
}

/// Appends a parameter's printed form; an unannotated parameter
/// defaults to the numeric type.
fn gen_param(out: &mut Vec<char>, p: &Param)
    ensures
        final(out)@ == old(out)@ + spec_gen_param(param_view(*p)),
{
    push_str_chars(out, p.name.as_str());
    push_str_chars(out, ": ");
    let ty = match p.ty {
        Some(t) => t,
        None => TypeAnn::Number,
    };
    push_str_chars(out, rust_type(ty));
    proof {
        assert(out@ =~= old(out)@ + (p.name@ + ": "@ + spec_rust_type(ty)));
    }
}

/// Appends the printed parameter list from index `k` on, joined by
/// commas.
fn gen_params_into(out: &mut Vec<char>, ps: &Vec<Param>, k: usize)
    requires
        k <= ps@.len(),
    ensures
        final(out)@ == old(out)@ + spec_gen_params(params_view(ps@), k as int),
    decreases ps@.len() - k,
{
    if k >= ps.len() {
        proof {
            assert(old(out)@ + Seq::<char>::empty() =~= old(out)@);
        }
        return ;
    }
    proof {
        assert(params_view(ps@)[k as int] == param_view(ps@[k as int]));
    }
    gen_param(out, &ps[k]);
    if k + 1 < ps.len() {
        push_str_chars(out, ", ");
        gen_params_into(out, ps, k + 1);
    }
}

/// Prints one function declaration: its signature, with `-> type`
/// only when the effective return type is non-void, and its body in
/// the function's return context.
#[verifier::rlimit(50)]
fn gen_func_decl(f: &FuncDecl) -> (r: Result<Vec<char>, Error>)
    ensures
        match r {
            Ok(v) => spec_gen_func(func_view(*f)) == Ok::<Seq<char>, ErrModel>(v@),
            Err(e) => spec_gen_func(func_view(*f)) == Err::<Seq<char>, ErrModel>(err_view(e)),
        },
{
    let ret = effective_ret_type(f);
    let mut out: Vec<char> = Vec::new();
    push_str_chars(&mut out, "fn ");
    push_str_chars(&mut out, f.name.as_str());
    push_str_chars(&mut out, "(");
    gen_params_into(&mut out, &f.params, 0);
    push_str_chars(&mut out, ")");
    if !matches!(ret, TypeAnn::Void) {
        push_str_chars(&mut out, " -> ");
        push_str_chars(&mut out, rust_type(ret));
    }
    push_str_chars(&mut out, " {\n");
    let ghost sig = out@;
    match gen_stmts_into(&mut out, &f.body.stmts, 0, 1, ReturnCtx::Function(ret)) {
        Ok(_) => {},
        Err(e) => {
            return Err(e);
        },
    }
    push_str_chars(&mut out, "}\n");
    proof {
        let fm = func_view(*f);
        let body = spec_gen_stmts_text(fm.body, 0, 1, ReturnCtx::Function(ret))->Ok_0;
        assert(sig =~= "fn "@ + fm.name + "("@ + spec_gen_params(fm.params, 0) + ")"@ + (if ret
            is Void {
            Seq::<char>::empty()
        } else {
            " -> "@ + spec_rust_type(ret)
        }) + " {\n"@);
        assert(out@ =~= sig + body + "}\n"@);
    }
    Ok(out)
}

/// Appends the printed function declarations from index `k` on, each
/// followed by a blank line.
fn gen_funcs_into(out: &mut Vec<char>, fs: &Vec<FuncDecl>, k: usize) -> (r: Result<(), Error>)
    requires
        k <= fs@.len(),
    ensures
        match r {
            Ok(_) => spec_gen_funcs(funcs_view(fs@), k as int) is Ok && final(out)@ == old(out)@
                + spec_gen_funcs(funcs_view(fs@), k as int)->Ok_0,
            Err(e) => spec_gen_funcs(funcs_view(fs@), k as int) == Err::<Seq<char>, ErrModel>(
                err_view(e),
            ),
        },
    decreases fs@.len() - k,
{
    if k >= fs.len() {
        proof {
            assert(old(out)@ + Seq::<char>::empty() =~= old(out)@);
        }
        return Ok(());
    }
    proof {
        assert(funcs_view(fs@)[k as int] == func_view(fs@[k as int]));
    }
    let mut t = match gen_func_decl(&fs[k]) {
        Ok(t) => t,
        Err(e) => {
            return Err(e);
        },
    };
    out.append(&mut t);
    push_str_chars(out, "\n");
    match gen_funcs_into(out, fs, k + 1) {
        Ok(_) => Ok(()),
        Err(e) => {
            return Err(e);
        },
    }
}

/// Prints a whole program: every function declaration in source
/// order, then one `main` block holding the top-level statements.
pub fn gen_program(program: &Program) -> (r: Result<String, Error>)
    ensures
        match r {
            Ok(s) => spec_generate(program_view(*program)) == Ok::<Seq<char>, ErrModel>(s@),
            Err(e) => spec_generate(program_view(*program)) == Err::<Seq<char>, ErrModel>(
                err_view(e),
            ),
        },
{
    let mut out: Vec<char> = Vec::new();
    match gen_funcs_into(&mut out, &program.funcs, 0) {
        Ok(_) => {},
        Err(e) => {
            return Err(e);
        },
    }
    push_str_chars(&mut out, "fn main() {\n");
    match gen_stmts_into(&mut out, &program.stmts, 0, 1, ReturnCtx::Main) {
        Ok(_) => {},
        Err(e) => {
            return Err(e);
        },
    }
    push_str_chars(&mut out, "}\n");
    proof {
        let pm = program_view(*program);
        let fs = spec_gen_funcs(pm.funcs, 0)->Ok_0;
        let body = spec_gen_stmts_text(pm.stmts, 0, 1, ReturnCtx::Main)->Ok_0;
        assert(out@ =~= fs + "fn main() {\n"@ + body + "}\n"@);
    }
    Ok(chars_to_string(&out))
}

/// The generator's entry point: the printed program, or the first
/// diagnostic.
pub fn generate(program: &Program) -> (r: Result<String, Error>)
    ensures
        match r {
            Ok(s) => spec_generate(program_view(*program)) == Ok::<Seq<char>, ErrModel>(s@),
            Err(e) => spec_generate(program_view(*program)) == Err::<Seq<char>, ErrModel>(
                err_view(e),
            ),
        },
{
    gen_program(program)
}

/// Prints one statement (in the entry-block return context) with its
/// trailing line breaks removed.
pub fn gen_stmt(stmt: &Stmt) -> (r: Result<String, Error>)
    ensures
        match r {
            Ok(s) => spec_gen_stmt_text(stmt_view(*stmt), 0, ReturnCtx::Main) is Ok && s@
                == spec_trim_newlines(
                spec_gen_stmt_text(stmt_view(*stmt), 0, ReturnCtx::Main)->Ok_0,
            ),
            Err(e) => spec_gen_stmt_text(stmt_view(*stmt), 0, ReturnCtx::Main) == Err::<
                Seq<char>,
                ErrModel,
            >(err_view(e)),
        },
{
    let mut out: Vec<char> = Vec::new();
    match gen_stmt_into(&mut out, 0, ReturnCtx::Main, stmt) {
        Ok(_) => {},
        Err(e) => {
            return Err(e);
        },
    }
    let ghost t0 = out@;
    proof {
        assert(t0 =~= Seq::<char>::empty() + t0);
        assert(Seq::<char>::empty() + t0 =~= t0);
    }
    loop
        invariant_except_break
            spec_trim_newlines(t0) == spec_trim_newlines(out@),
        ensures
            spec_trim_newlines(t0) == spec_trim_newlines(out@),
            out@.len() == 0 || out@.last() != '\n',
        decreases out@.len(),
    {
        let n = out.len();
        if n == 0 {
            break;
        }
        if out[n - 1] != '\n' {
            break;
        }
        out.pop();
    }
    proof {
        assert(spec_trim_newlines(out@) == out@);
    }
    Ok(chars_to_string(&out))
}

} // verus!
