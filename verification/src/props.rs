//! Laws of the pipeline, stated and proved over the stage models.
//!
//! Each public proof function here is a property that relates several
//! stages (or several runs of one stage); its statement is the law,
//! its body the proof.

use vstd::prelude::*;
use crate::token::{KindModel, TokenModel};
use crate::ast::{CalleeModel, ExprModel, FuncModel, ProgramModel, StmtModel};
use crate::error::ErrModel;
use crate::lexer::{Cursor, adv, esc_char, spec_lex, spec_lex_string, spec_str_body};
use crate::codegen::{
    ReturnCtx, esc_of, spec_effective_ret, spec_escape, spec_gen_args, spec_gen_branch,
    spec_gen_expr_bp, spec_gen_funcs, spec_gen_stmt_text, spec_gen_stmts_text, spec_generate,
};
use crate::parser::{
    spec_infix_bp, spec_parse_args_rest, spec_parse_block_only, spec_parse_block_rest,
    spec_parse_block_stmt, spec_parse_call_args, spec_parse_console_log, spec_parse_expr_bp,
    spec_parse_expr_stmt, spec_parse_func_decl, spec_parse_if, spec_parse_infix,
    spec_parse_prefix, spec_parse_primary, spec_parse_return, spec_parse_stmt,
    spec_parse_top, spec_parse_var_decl, spec_parse_while, step_ok,
};
use crate::spec_parse_src;
use crate::parser::spec_parse;

verus! {

/// Escaping distributes over concatenation.
proof fn lemma_escape_concat(a: Seq<char>, b: Seq<char>)
    ensures
        spec_escape(a + b) == spec_escape(a) + spec_escape(b),
    decreases b.len(),
{
    if b.len() == 0 {
        assert(a + b =~= a);
        assert(spec_escape(a) + spec_escape(b) =~= spec_escape(a));
    } else {
        lemma_escape_concat(a, b.drop_last());
        assert((a + b).drop_last() =~= a + b.drop_last());
        assert((a + b).last() == b.last());
        assert(spec_escape(a + b) =~= spec_escape(a) + spec_escape(b));
    }
}

/// Scanning a string-literal body whose text is the re-escaped form
/// of `s` (up to the closing quote) decodes exactly `s` back, after
/// whatever was already accumulated.
proof fn lemma_str_body_decodes(full: Seq<char>, st: Cursor, start: Cursor, acc: Seq<char>, s: Seq<
    char,
>)
    requires
        full.len() <= usize::MAX,
        st.i + spec_escape(s).len() + 1 <= full.len(),
        full.subrange(st.i as int, st.i + spec_escape(s).len()) == spec_escape(s),
        full[st.i + spec_escape(s).len()] == '"',
    ensures
        spec_str_body(full, st, start, acc) is Ok,
        spec_str_body(full, st, start, acc)->Ok_0.0.kind == KindModel::StrLit(acc + s),
    decreases s.len(),
{
    let es = spec_escape(s);
    if s.len() == 0 {
        assert(es =~= Seq::<char>::empty());
        assert(full[st.i as int] == '"');
        assert(acc + s =~= acc);
    } else {
        let c = s[0];
        let s1 = s.subrange(1, s.len() as int);
        let one = seq![c];
        assert(one + s1 =~= s);
        lemma_escape_concat(one, s1);
        assert(one.drop_last() =~= Seq::<char>::empty());
        assert(one.last() == c);
        assert(spec_escape(one) =~= spec_escape(Seq::<char>::empty()) + esc_of(c));
        assert(spec_escape(Seq::<char>::empty()) + esc_of(c) =~= esc_of(c));
        let e1 = spec_escape(s1);
        assert(es == esc_of(c) + e1);
        if c == '\\' || c == '"' || c == '\n' || c == '\r' || c == '\t' {
            // Two characters of literal text: a backslash and the
            // escape letter, which decodes back to `c`.
            let x = esc_of(c)[1];
            assert(full[st.i as int] == es[0]);
            assert(es[0] == '\\');
            assert(full[st.i + 1] == es[1]);
            assert(es[1] == x);
            assert(esc_char(x) == c);
            let st2 = adv(st, '\\');
            assert(st2.i == st.i + 1);
            let st3 = adv(st2, x);
            assert(st3.i == st.i + 2);
            assert(full.subrange(st3.i as int, st3.i + e1.len()) =~= e1) by {
                assert(forall|k: int|
                    0 <= k < e1.len() ==> full.subrange(st3.i as int, st3.i + e1.len())[k]
                        == full[st.i + 2 + k] && full[st.i + 2 + k] == es[k + 2] && es[k + 2]
                        == e1[k]);
            }
            assert(full[st3.i + e1.len()] == '"');
            lemma_str_body_decodes(full, st3, start, acc.push(c), s1);
            assert(acc.push(c) + s1 =~= acc + s);
        } else {
            // A single literal character standing for itself.
            assert(esc_of(c) =~= seq![c]);
            assert(full[st.i as int] == es[0]);
            assert(es[0] == c);
            let st2 = adv(st, c);
            assert(st2.i == st.i + 1);
            assert(full.subrange(st2.i as int, st2.i + e1.len()) =~= e1) by {
                assert(forall|k: int|
                    0 <= k < e1.len() ==> full.subrange(st2.i as int, st2.i + e1.len())[k]
                        == full[st.i + 1 + k] && full[st.i + 1 + k] == es[k + 1] && es[k + 1]
                        == e1[k]);
            }
            assert(full[st2.i + e1.len()] == '"');
            lemma_str_body_decodes(full, st2, start, acc.push(c), s1);
            assert(acc.push(c) + s1 =~= acc + s);
        }
    }
}

/// Idempotence of literal escaping: a string literal whose body is
/// the re-escaped form of a value `s` (as the code generator writes
/// it) scans back to exactly the value `s`.  Decoding what was
/// re-encoded always reproduces the original value.
pub proof fn string_escape_round_trip(full: Seq<char>, st: Cursor, s: Seq<char>)
    requires
        full.len() <= usize::MAX,
        st.i < full.len(),
        full[st.i as int] == '"',
        st.i + 1 + spec_escape(s).len() + 1 <= full.len(),
        full.subrange(st.i + 1, st.i + 1 + spec_escape(s).len()) == spec_escape(s),
        full[st.i + 1 + spec_escape(s).len()] == '"',
    ensures
        spec_lex_string(full, st) is Ok,
        spec_lex_string(full, st)->Ok_0.0.kind == KindModel::StrLit(s),
{
    let st1 = adv(st, '"');
    assert(st1.i == st.i + 1);
    lemma_str_body_decodes(full, st1, st, Seq::<char>::empty(), s);
    assert(Seq::<char>::empty() + s =~= s);
}

/// Every infix operator's right binding power is one more than its
/// left binding power, which is exactly what makes every operator
/// left-associative.
pub proof fn lemma_right_bp_is_left_plus_one(k: KindModel)
    ensures
        spec_infix_bp(k) matches Some((l, r, op)) ==> r == l + 1,
{
}

/// The shared grouping argument: parsing `x a y b z` for binary
/// operators `a`, `b` with `bp(b) <= bp(a)` groups as `(x a y) b z`.
/// The operands are plain identifiers (not the dotted built-in name).
proof fn lemma_binary_grouping(m: Seq<TokenModel>, x: Seq<char>, y: Seq<char>, z: Seq<char>)
    requires
        m.len() == 5,
        m[0].kind == KindModel::Ident(x),
        m[2].kind == KindModel::Ident(y),
        m[4].kind == KindModel::Ident(z),
        x != "console.log"@,
        y != "console.log"@,
        z != "console.log"@,
        spec_infix_bp(m[1].kind) is Some,
        spec_infix_bp(m[3].kind) is Some,
        spec_infix_bp(m[3].kind)->Some_0.0 <= spec_infix_bp(m[1].kind)->Some_0.0,
    ensures
        spec_parse_expr_bp(m, 0, 0u8) == Ok::<(ExprModel, int), crate::error::ErrModel>(
            (
                ExprModel::Binary(
                    spec_infix_bp(m[3].kind)->Some_0.2,
                    Box::new(
                        ExprModel::Binary(
                            spec_infix_bp(m[1].kind)->Some_0.2,
                            Box::new(ExprModel::Ident(x)),
                            Box::new(ExprModel::Ident(y)),
                        ),
                    ),
                    Box::new(ExprModel::Ident(z)),
                ),
                5,
            ),
        ),
{
    let (la, ra, opa) = spec_infix_bp(m[1].kind)->Some_0;
    let (lb, rb, opb) = spec_infix_bp(m[3].kind)->Some_0;
    lemma_right_bp_is_left_plus_one(m[1].kind);
    lemma_right_bp_is_left_plus_one(m[3].kind);
    assert(!(m[1].kind is LParen));
    assert(!(m[3].kind is LParen));
    assert(!(m[1].kind is Dot));
    assert(spec_parse_primary(m, 0) == Ok::<(ExprModel, int), crate::error::ErrModel>(
        (ExprModel::Ident(x), 1),
    ));
    assert(spec_parse_prefix(m, 0) == Ok::<(ExprModel, int), crate::error::ErrModel>(
        (ExprModel::Ident(x), 1),
    ));
    assert(!(m[3].kind is Dot));
    assert(spec_parse_primary(m, 2) == Ok::<(ExprModel, int), crate::error::ErrModel>(
        (ExprModel::Ident(y), 3),
    ));
    assert(spec_parse_prefix(m, 2) == Ok::<(ExprModel, int), crate::error::ErrModel>(
        (ExprModel::Ident(y), 3),
    ));
    assert(spec_parse_primary(m, 4) == Ok::<(ExprModel, int), crate::error::ErrModel>(
        (ExprModel::Ident(z), 5),
    ));
    assert(spec_parse_prefix(m, 4) == Ok::<(ExprModel, int), crate::error::ErrModel>(
        (ExprModel::Ident(z), 5),
    ));
    // The right operand of `a` stops before `b`, because
    // bp(b) < bp(a) + 1.
    let idy = ExprModel::Ident(y);
    assert(spec_parse_infix(m, 3, ra, idy) == Ok::<(ExprModel, int), crate::error::ErrModel>(
        (idy, 3),
    ));
    assert(spec_parse_expr_bp(m, 2, ra) == Ok::<(ExprModel, int), crate::error::ErrModel>(
        (idy, 3),
    ));
    let idz = ExprModel::Ident(z);
    let inner = ExprModel::Binary(opa, Box::new(ExprModel::Ident(x)), Box::new(idy));
    assert(spec_parse_infix(m, 5, rb, idz) == Ok::<(ExprModel, int), crate::error::ErrModel>(
        (idz, 5),
    ));
    assert(spec_parse_expr_bp(m, 4, rb) == Ok::<(ExprModel, int), crate::error::ErrModel>(
        (idz, 5),
    ));
    let outer = ExprModel::Binary(opb, Box::new(inner), Box::new(idz));
    assert(spec_parse_infix(m, 5, 0u8, outer) == Ok::<(ExprModel, int), crate::error::ErrModel>(
        (outer, 5),
    ));
    assert(spec_parse_infix(m, 3, 0u8, inner) == Ok::<(ExprModel, int), crate::error::ErrModel>(
        (outer, 5),
    ));
    assert(spec_parse_infix(m, 1, 0u8, ExprModel::Ident(x)) == Ok::<
        (ExprModel, int),
        crate::error::ErrModel,
    >((outer, 5)));
}

/// Precedence property: for binary operators `a`, `b` with
/// `bp(a) > bp(b)`, parsing `x a y b z` groups as `(x a y) b z`.
pub proof fn precedence_property(m: Seq<TokenModel>, x: Seq<char>, y: Seq<char>, z: Seq<char>)
    requires
        m.len() == 5,
        m[0].kind == KindModel::Ident(x),
        m[2].kind == KindModel::Ident(y),
        m[4].kind == KindModel::Ident(z),
        x != "console.log"@,
        y != "console.log"@,
        z != "console.log"@,
        spec_infix_bp(m[1].kind) is Some,
        spec_infix_bp(m[3].kind) is Some,
        spec_infix_bp(m[3].kind)->Some_0.0 < spec_infix_bp(m[1].kind)->Some_0.0,
    ensures
        spec_parse_expr_bp(m, 0, 0u8) == Ok::<(ExprModel, int), crate::error::ErrModel>(
            (
                ExprModel::Binary(
                    spec_infix_bp(m[3].kind)->Some_0.2,
                    Box::new(
                        ExprModel::Binary(
                            spec_infix_bp(m[1].kind)->Some_0.2,
                            Box::new(ExprModel::Ident(x)),
                            Box::new(ExprModel::Ident(y)),
                        ),
                    ),
                    Box::new(ExprModel::Ident(z)),
                ),
                5,
            ),
        ),
{
    lemma_binary_grouping(m, x, y, z);
}

/// Left-associativity property: parsing `x a y a z` for one binary
/// operator `a` groups as `(x a y) a z`, never `x a (y a z)`.
pub proof fn left_associativity_property(m: Seq<TokenModel>, x: Seq<char>, y: Seq<char>, z: Seq<
    char,
>)
    requires
        m.len() == 5,
        m[0].kind == KindModel::Ident(x),
        m[2].kind == KindModel::Ident(y),
        m[4].kind == KindModel::Ident(z),
        x != "console.log"@,
        y != "console.log"@,
        z != "console.log"@,
        m[1].kind == m[3].kind,
        spec_infix_bp(m[1].kind) is Some,
    ensures
        spec_parse_expr_bp(m, 0, 0u8) == Ok::<(ExprModel, int), crate::error::ErrModel>(
            (
                ExprModel::Binary(
                    spec_infix_bp(m[1].kind)->Some_0.2,
                    Box::new(
                        ExprModel::Binary(
                            spec_infix_bp(m[1].kind)->Some_0.2,
                            Box::new(ExprModel::Ident(x)),
                            Box::new(ExprModel::Ident(y)),
                        ),
                    ),
                    Box::new(ExprModel::Ident(z)),
                ),
                5,
            ),
        ),
{
    lemma_binary_grouping(m, x, y, z);
}


// ------------------------------------------------------------------
// The round-trip law: what parses, generates.
// ------------------------------------------------------------------

/// Every built-in print call in the expression holds exactly one
/// argument (the only expression shape the generator refuses).
pub open spec fn expr_wf(e: ExprModel) -> bool
    decreases e,
{
    match e {
        ExprModel::Lit(_) => true,
        ExprModel::Ident(_) => true,
        ExprModel::Unary(_, s) => expr_wf(*s),
        ExprModel::Binary(_, l, r) => expr_wf(*l) && expr_wf(*r),
        ExprModel::Group(g) => expr_wf(*g),
        ExprModel::Call(c, args) => (c is ConsoleLog ==> args.len() == 1) && exprs_wf(args),
    }
}

/// Well-formedness of every expression in a sequence.
pub open spec fn exprs_wf(args: Seq<ExprModel>) -> bool
    decreases args,
{
    forall|i: int| 0 <= i < args.len() ==> expr_wf(#[trigger] args[i])
}

/// Well-formedness of every expression in a statement.
pub open spec fn stmt_wf(s: StmtModel) -> bool
    decreases s, 0int, 1int,
{
    match s {
        StmtModel::VarDecl { init, .. } => expr_wf(init),
        StmtModel::Assign { value, .. } => expr_wf(value),
        StmtModel::ExprStmt(e) => expr_wf(e),
        StmtModel::Block(ss) => stmts_wf(ss),
        StmtModel::If(c, t, e) => expr_wf(c) && stmt_wf(*t) && stmt_wf(*e),
        StmtModel::While(c, b) => expr_wf(c) && stmt_wf(*b),
        StmtModel::Return(v) => match v {
            Some(e) => expr_wf(e),
            None => true,
        },
    }
}

/// Well-formedness of every statement in a sequence.
pub open spec fn stmts_wf(ss: Seq<StmtModel>) -> bool
    decreases ss, 0int, 0int,
{
    forall|i: int| 0 <= i < ss.len() ==> stmt_wf(#[trigger] ss[i])
}

/// Well-formedness of a whole program.
pub open spec fn prog_wf(p: ProgramModel) -> bool {
    &&& forall|i: int| 0 <= i < p.funcs.len() ==> stmts_wf(#[trigger] p.funcs[i].body)
    &&& stmts_wf(p.stmts)
}

/// Whether a return context discards returned values.
pub open spec fn void_like(ctx: ReturnCtx) -> bool {
    match ctx {
        ReturnCtx::Main => true,
        ReturnCtx::Function(t) => t is Void,
    }
}

/// No bare `return;` stands where the context demands a value.
pub open spec fn stmt_returns_ok(s: StmtModel, void: bool) -> bool
    decreases s, 0int, 1int,
{
    match s {
        StmtModel::Return(v) => v is Some || void,
        StmtModel::Block(ss) => stmts_returns_ok(ss, void),
        StmtModel::If(_, t, e) => stmt_returns_ok(*t, void) && stmt_returns_ok(*e, void),
        StmtModel::While(_, b) => stmt_returns_ok(*b, void),
        _ => true,
    }
}

/// The return rule over a statement sequence.
pub open spec fn stmts_returns_ok(ss: Seq<StmtModel>, void: bool) -> bool
    decreases ss, 0int, 0int,
{
    forall|i: int| 0 <= i < ss.len() ==> stmt_returns_ok(#[trigger] ss[i], void)
}

/// The return rule over a whole program: each function's body obeys
/// it under the function's effective return type (top-level returns
/// always discard their value, so only functions constrain anything).
pub open spec fn prog_returns_ok(p: ProgramModel) -> bool {
    forall|i: int|
        0 <= i < p.funcs.len() ==> stmts_returns_ok(
            (#[trigger] p.funcs[i]).body,
            spec_effective_ret(p.funcs[i]) is Void,
        )
}

/// A well-formed expression always prints.
proof fn lemma_gen_expr_ok(e: ExprModel, p: u8)
    requires
        expr_wf(e),
    ensures
        spec_gen_expr_bp(e, p) is Ok,
    decreases e, 1int,
{
    match e {
        ExprModel::Lit(_) => {},
        ExprModel::Ident(_) => {},
        ExprModel::Unary(_, s) => {
            lemma_gen_expr_ok(*s, 80u8);
        },
        ExprModel::Binary(op, l, r) => {
            lemma_gen_expr_ok(*l, crate::codegen::spec_binary_bp(op));
            lemma_gen_expr_ok(*r, (crate::codegen::spec_binary_bp(op) + 1) as u8);
        },
        ExprModel::Group(g) => {
            lemma_gen_expr_ok(*g, 0u8);
        },
        ExprModel::Call(c, args) => {
            match c {
                CalleeModel::ConsoleLog => {
                    assert(exprs_wf(args));
                    assert(args.len() == 1);
                    assert(expr_wf(args[0]));
                    lemma_gen_expr_ok(args[0], 0u8);
                },
                CalleeModel::Ident(_) => {
                    lemma_gen_args_ok(args, 0);
                },
            }
        },
    }
}

/// A sequence of well-formed arguments always prints.
proof fn lemma_gen_args_ok(args: Seq<ExprModel>, i: int)
    requires
        exprs_wf(args),
    ensures
        spec_gen_args(args, i) is Ok,
    decreases args, args.len() - i,
{
    if 0 <= i < args.len() {
        lemma_gen_expr_ok(args[i], 0u8);
        if i + 1 < args.len() {
            lemma_gen_args_ok(args, i + 1);
        }
    }
}

/// A well-formed statement obeying the return rule always prints.
proof fn lemma_gen_stmt_ok(s: StmtModel, ind: usize, ctx: ReturnCtx)
    requires
        stmt_wf(s),
        stmt_returns_ok(s, void_like(ctx)),
    ensures
        spec_gen_stmt_text(s, ind, ctx) is Ok,
    decreases s, 0int, 1int,
{
    match s {
        StmtModel::VarDecl { init, .. } => {
            lemma_gen_expr_ok(init, 0u8);
        },
        StmtModel::Assign { value, .. } => {
            lemma_gen_expr_ok(value, 0u8);
        },
        StmtModel::ExprStmt(e) => {
            lemma_gen_expr_ok(e, 0u8);
        },
        StmtModel::Return(v) => {
            match v {
                Some(e) => {
                    lemma_gen_expr_ok(e, 0u8);
                },
                None => {},
            }
        },
        StmtModel::Block(ss) => {
            lemma_gen_stmts_ok(ss, 0, crate::codegen::sat_inc(ind), ctx);
        },
        StmtModel::If(c, t, e) => {
            lemma_gen_expr_ok(c, 0u8);
            lemma_gen_branch_ok(*t, crate::codegen::sat_inc(ind), ctx);
            lemma_gen_branch_ok(*e, crate::codegen::sat_inc(ind), ctx);
        },
        StmtModel::While(c, b) => {
            lemma_gen_expr_ok(c, 0u8);
            lemma_gen_branch_ok(*b, crate::codegen::sat_inc(ind), ctx);
        },
    }
}

/// A branch of well-formed statements always prints.
proof fn lemma_gen_branch_ok(s: StmtModel, ind: usize, ctx: ReturnCtx)
    requires
        stmt_wf(s),
        stmt_returns_ok(s, void_like(ctx)),
    ensures
        spec_gen_branch(s, ind, ctx) is Ok,
    decreases s, 0int, 2int,
{
    match s {
        StmtModel::Block(ss) => {
            lemma_gen_stmts_ok(ss, 0, ind, ctx);
        },
        _ => {
            lemma_gen_stmt_ok(s, ind, ctx);
        },
    }
}

/// A sequence of well-formed statements always prints.
proof fn lemma_gen_stmts_ok(ss: Seq<StmtModel>, i: int, ind: usize, ctx: ReturnCtx)
    requires
        stmts_wf(ss),
        stmts_returns_ok(ss, void_like(ctx)),
    ensures
        spec_gen_stmts_text(ss, i, ind, ctx) is Ok,
    decreases ss, ss.len() - i, 0int,
{
    if 0 <= i < ss.len() {
        lemma_gen_stmt_ok(ss[i], ind, ctx);
        lemma_gen_stmts_ok(ss, i + 1, ind, ctx);
    }
}

/// A well-formed program obeying the return rule always generates.
proof fn lemma_gen_funcs_ok(fs: Seq<FuncModel>, i: int)
    requires
        forall|k: int| 0 <= k < fs.len() ==> stmts_wf((#[trigger] fs[k]).body),
        forall|k: int|
            0 <= k < fs.len() ==> stmts_returns_ok(
                (#[trigger] fs[k]).body,
                spec_effective_ret(fs[k]) is Void,
            ),
    ensures
        spec_gen_funcs(fs, i) is Ok,
    decreases fs.len() - i,
{
    if 0 <= i < fs.len() {
        let ret = spec_effective_ret(fs[i]);
        assert(void_like(ReturnCtx::Function(ret)) == (ret is Void));
        lemma_gen_stmts_ok(fs[i].body, 0, 1, ReturnCtx::Function(ret));
        lemma_gen_funcs_ok(fs, i + 1);
    }
}


/// The built-in print call parses with exactly one argument.
proof fn lemma_wf_console(m: Seq<TokenModel>, i: int)
    ensures
        spec_parse_console_log(m, i) matches Ok((e, _)) ==> expr_wf(e),
    decreases m.len() - i, 4int,
{
    match spec_parse_console_log(m, i) {
        Err(_) => {},
        Ok((e, _)) => {
            match e {
                ExprModel::Call(c, args) => {
                    assert(args.len() == 1 && expr_wf(args[0]));
                    assert(forall|k: int| 0 <= k < args.len() ==> expr_wf(#[trigger] args[k]));
                    assert(exprs_wf(args));
                    assert(expr_wf(e));
                },
                _ => {
                    assert(false);
                },
            }
        },
    }
}

/// The rest of an argument list parses well-formed, given the
/// arguments already gathered are.
proof fn lemma_wf_args_rest(m: Seq<TokenModel>, i: int, acc: Seq<ExprModel>)
    requires
        exprs_wf(acc),
    ensures
        spec_parse_args_rest(m, i, acc) matches Ok((args, _)) ==> exprs_wf(args),
    decreases m.len() - i, 9int,
{
    match spec_parse_expr_bp(m, i, 0u8) {
        Err(_) => {},
        Ok((e, j)) => {
            lemma_wf_expr_bp(m, i, 0u8);
            assert(forall|k: int| 0 <= k < acc.push(e).len() ==> expr_wf(#[trigger] acc.push(e)[k]));
            if 0 <= j < m.len() {
                match m[j].kind {
                    KindModel::Comma => {
                        if step_ok(m, i, j + 1) {
                            lemma_wf_args_rest(m, j + 1, acc.push(e));
                        }
                    },
                    _ => {},
                }
            }
        },
    }
}

/// A call's argument list parses well-formed.
proof fn lemma_wf_call_args(m: Seq<TokenModel>, i: int)
    ensures
        spec_parse_call_args(m, i) matches Ok((args, _)) ==> exprs_wf(args),
    decreases m.len() - i, 4int,
{
    match crate::parser::spec_expect_simple(m, i, KindModel::LParen) {
        Err(_) => {},
        Ok(j) => {
            if 0 <= j < m.len() && m[j].kind is RParen {
            } else if step_ok(m, i, j) {
                lemma_wf_args_rest(m, j, Seq::empty());
            }
        },
    }
}

/// A primary expression parses well-formed.
proof fn lemma_wf_primary(m: Seq<TokenModel>, i: int)
    ensures
        spec_parse_primary(m, i) matches Ok((e, _)) ==> expr_wf(e),
    decreases m.len() - i, 5int,
{
    if 0 <= i < m.len() {
        match m[i].kind {
            KindModel::Ident(s) => {
                if s == "console.log"@ {
                    lemma_wf_console(m, i);
                } else if s == "console"@ && i + 2 < m.len() && m[i + 1].kind is Dot && m[i
                    + 2].kind matches KindModel::Ident(_) {
                    lemma_wf_console(m, i);
                }
            },
            KindModel::LParen => {
                lemma_wf_expr_bp(m, i + 1, 0u8);
            },
            _ => {},
        }
    }
}

/// A prefix expression parses well-formed.
proof fn lemma_wf_prefix(m: Seq<TokenModel>, i: int)
    ensures
        spec_parse_prefix(m, i) matches Ok((e, _)) ==> expr_wf(e),
    decreases m.len() - i, 6int,
{
    if 0 <= i < m.len() && m[i].kind is Not {
        lemma_wf_expr_bp(m, i + 1, 13u8);
    } else if 0 <= i < m.len() && m[i].kind is Minus {
        lemma_wf_expr_bp(m, i + 1, 13u8);
    } else {
        lemma_wf_primary(m, i);
    }
}

/// The infix fold preserves well-formedness.
proof fn lemma_wf_infix(m: Seq<TokenModel>, i: int, min_bp: u8, lhs: ExprModel)
    requires
        expr_wf(lhs),
    ensures
        spec_parse_infix(m, i, min_bp, lhs) matches Ok((e, _)) ==> expr_wf(e),
    decreases m.len() - i, 7int,
{
    if 0 <= i < m.len() && m[i].kind is LParen {
        if 15u8 < min_bp {
        } else {
            match lhs {
                ExprModel::Ident(name) => {
                    match spec_parse_call_args(m, i) {
                        Err(_) => {},
                        Ok((args, j)) => {
                            lemma_wf_call_args(m, i);
                            if step_ok(m, i, j) {
                                lemma_wf_infix(
                                    m,
                                    j,
                                    min_bp,
                                    ExprModel::Call(CalleeModel::Ident(name), args),
                                );
                            }
                        },
                    }
                },
                _ => {},
            }
        }
    } else if 0 <= i < m.len() {
        match spec_infix_bp(m[i].kind) {
            None => {},
            Some((l_bp, r_bp, op)) => {
                if l_bp < min_bp {
                } else {
                    match spec_parse_expr_bp(m, i + 1, r_bp) {
                        Err(_) => {},
                        Ok((rhs, j)) => {
                            lemma_wf_expr_bp(m, i + 1, r_bp);
                            if step_ok(m, i, j) {
                                lemma_wf_infix(
                                    m,
                                    j,
                                    min_bp,
                                    ExprModel::Binary(op, Box::new(lhs), Box::new(rhs)),
                                );
                            }
                        },
                    }
                }
            },
        }
    }
}

/// An expression parses well-formed.
proof fn lemma_wf_expr_bp(m: Seq<TokenModel>, i: int, min_bp: u8)
    ensures
        spec_parse_expr_bp(m, i, min_bp) matches Ok((e, _)) ==> expr_wf(e),
    decreases m.len() - i, 8int,
{
    match spec_parse_prefix(m, i) {
        Err(_) => {},
        Ok((lhs, j)) => {
            lemma_wf_prefix(m, i);
            if step_ok(m, i, j) {
                lemma_wf_infix(m, j, min_bp, lhs);
            }
        },
    }
}

/// An expression statement parses well-formed.
proof fn lemma_wf_expr_stmt(m: Seq<TokenModel>, i: int)
    ensures
        spec_parse_expr_stmt(m, i) matches Ok((s, _)) ==> stmt_wf(s),
    decreases m.len() - i, 9int,
{
    lemma_wf_expr_bp(m, i, 0u8);
}

/// A variable declaration parses well-formed.
proof fn lemma_wf_var_decl(m: Seq<TokenModel>, i: int, is_const: bool)
    ensures
        spec_parse_var_decl(m, i, is_const) matches Ok((s, _)) ==> stmt_wf(s),
    decreases m.len() - i, 9int,
{
    match crate::parser::spec_expect_simple(
        m,
        i,
        if is_const {
            KindModel::KwConst
        } else {
            KindModel::KwLet
        },
    ) {
        Err(_) => {},
        Ok(j) => {
            match crate::parser::spec_expect_ident(m, j) {
                Err(_) => {},
                Ok((_, j2)) => {
                    match crate::parser::spec_expect_simple(m, j2, KindModel::Eq) {
                        Err(_) => {},
                        Ok(j3) => {
                            if step_ok(m, i, j3) {
                                lemma_wf_expr_bp(m, j3, 0u8);
                            }
                        },
                    }
                },
            }
        },
    }
}

/// An `if` statement parses well-formed.
proof fn lemma_wf_if(m: Seq<TokenModel>, i: int)
    ensures
        spec_parse_if(m, i) matches Ok((s, _)) ==> stmt_wf(s),
    decreases m.len() - i, 9int,
{
    match crate::parser::spec_expect_simple(m, i + 1, KindModel::LParen) {
        Err(_) => {},
        Ok(j) => {
            if step_ok(m, i, j) {
                lemma_wf_expr_bp(m, j, 0u8);
                match spec_parse_expr_bp(m, j, 0u8) {
                    Err(_) => {},
                    Ok((cond, j2)) => {
                        match crate::parser::spec_expect_rparen(m, j2) {
                            Err(_) => {},
                            Ok(j3) => {
                                if step_ok(m, i, j3) {
                                    lemma_wf_stmt(m, j3);
                                    match spec_parse_stmt(m, j3) {
                                        Err(_) => {},
                                        Ok((_, j4)) => {
                                            if 0 <= j4 < m.len() && m[j4].kind is KwElse
                                                && step_ok(m, i, j4 + 1) {
                                                lemma_wf_stmt(m, j4 + 1);
                                            }
                                        },
                                    }
                                }
                            },
                        }
                    },
                }
            }
        },
    }
}

/// A `while` statement parses well-formed.
proof fn lemma_wf_while(m: Seq<TokenModel>, i: int)
    ensures
        spec_parse_while(m, i) matches Ok((s, _)) ==> stmt_wf(s),
    decreases m.len() - i, 9int,
{
    match crate::parser::spec_expect_simple(m, i + 1, KindModel::LParen) {
        Err(_) => {},
        Ok(j) => {
            if step_ok(m, i, j) {
                lemma_wf_expr_bp(m, j, 0u8);
                match spec_parse_expr_bp(m, j, 0u8) {
                    Err(_) => {},
                    Ok((cond, j2)) => {
                        match crate::parser::spec_expect_rparen(m, j2) {
                            Err(_) => {},
                            Ok(j3) => {
                                if step_ok(m, i, j3) {
                                    lemma_wf_stmt(m, j3);
                                }
                            },
                        }
                    },
                }
            }
        },
    }
}

/// A `return` statement parses well-formed.
proof fn lemma_wf_return(m: Seq<TokenModel>, i: int)
    ensures
        spec_parse_return(m, i) matches Ok((s, _)) ==> stmt_wf(s),
    decreases m.len() - i, 9int,
{
    if 0 <= i + 1 < m.len() && m[i + 1].kind is Semicolon {
    } else if step_ok(m, i, i + 1) {
        lemma_wf_expr_bp(m, i + 1, 0u8);
    }
}

/// The contents of a block parse well-formed.
proof fn lemma_wf_block_rest(m: Seq<TokenModel>, i: int)
    ensures
        spec_parse_block_rest(m, i) matches Ok((ss, _)) ==> stmts_wf(ss),
    decreases m.len() - i, 11int,
{
    if 0 <= i < m.len() {
        if m[i].kind is RBrace {
        } else {
            match spec_parse_stmt(m, i) {
                Err(_) => {},
                Ok((s, j)) => {
                    lemma_wf_stmt(m, i);
                    if step_ok(m, i, j) {
                        lemma_wf_block_rest(m, j);
                        match spec_parse_block_rest(m, j) {
                            Err(_) => {},
                            Ok((ss, _)) => {
                                assert(forall|k: int|
                                    0 <= k < (seq![s] + ss).len() ==> stmt_wf(
                                        #[trigger] (seq![s] + ss)[k],
                                    ));
                            },
                        }
                    }
                },
            }
        }
    }
}

/// A block statement parses well-formed.
proof fn lemma_wf_block_stmt(m: Seq<TokenModel>, i: int)
    ensures
        spec_parse_block_stmt(m, i) matches Ok((ss, _)) ==> stmts_wf(ss),
    decreases m.len() - i, 2int,
{
    if step_ok(m, i, i + 1) {
        lemma_wf_block_rest(m, i + 1);
    }
}

/// A function body parses well-formed.
proof fn lemma_wf_block_only(m: Seq<TokenModel>, i: int)
    ensures
        spec_parse_block_only(m, i) matches Ok((ss, _)) ==> stmts_wf(ss),
    decreases m.len() - i, 3int,
{
    if 0 <= i < m.len() && m[i].kind is LBrace {
        lemma_wf_block_stmt(m, i);
    }
}

/// A statement parses well-formed.
proof fn lemma_wf_stmt(m: Seq<TokenModel>, i: int)
    ensures
        spec_parse_stmt(m, i) matches Ok((s, _)) ==> stmt_wf(s),
    decreases m.len() - i, 10int,
{
    if 0 <= i < m.len() {
        match m[i].kind {
            KindModel::KwLet => {
                lemma_wf_var_decl(m, i, false);
            },
            KindModel::KwConst => {
                lemma_wf_var_decl(m, i, true);
            },
            KindModel::LBrace => {
                lemma_wf_block_stmt(m, i);
            },
            KindModel::KwIf => {
                lemma_wf_if(m, i);
            },
            KindModel::KwWhile => {
                lemma_wf_while(m, i);
            },
            KindModel::KwReturn => {
                lemma_wf_return(m, i);
            },
            KindModel::Ident(name) => {
                if i + 1 < m.len() && m[i + 1].kind is Eq {
                    lemma_wf_expr_bp(m, i + 2, 0u8);
                } else {
                    lemma_wf_expr_stmt(m, i);
                }
            },
            _ => {
                lemma_wf_expr_stmt(m, i);
            },
        }
    } else {
        lemma_wf_expr_stmt(m, i);
    }
}

/// A function declaration's body parses well-formed.
proof fn lemma_wf_func_decl(m: Seq<TokenModel>, i: int)
    ensures
        spec_parse_func_decl(m, i) matches Ok((f, _)) ==> stmts_wf(f.body),
    decreases m.len() - i, 9int,
{
    match spec_parse_func_decl(m, i) {
        Err(_) => {},
        Ok((f, _)) => {
            match crate::parser::spec_expect_ident(m, i + 1) {
                Err(_) => {
                    assert(false);
                },
                Ok((_, j)) => {
                    match crate::parser::spec_expect_simple(m, j, KindModel::LParen) {
                        Err(_) => {
                            assert(false);
                        },
                        Ok(j2) => {
                            let params_r: Result<
                                (Seq<crate::ast::ParamModel>, int),
                                ErrModel,
                            > = if 0 <= j2 < m.len() && m[j2].kind is RParen {
                                Ok((Seq::empty(), j2))
                            } else if step_ok(m, i, j2) {
                                crate::parser::spec_parse_params(m, j2, Seq::empty())
                            } else {
                                Err(crate::parser::stuck())
                            };
                            match params_r {
                                Err(_) => {
                                    assert(false);
                                },
                                Ok((_, j3)) => {
                                    match crate::parser::spec_expect_rparen(m, j3) {
                                        Err(_) => {
                                            assert(false);
                                        },
                                        Ok(j4) => {
                                            let ret_r: Result<
                                                (Option<crate::ast::TypeAnn>, int),
                                                ErrModel,
                                            > = if 0 <= j4 < m.len() && m[j4].kind is Colon {
                                                match crate::parser::spec_parse_type_ann(
                                                    m,
                                                    j4 + 1,
                                                ) {
                                                    Err(e) => Err(e),
                                                    Ok((t, j5)) => Ok((Some(t), j5)),
                                                }
                                            } else {
                                                Ok((None, j4))
                                            };
                                            match ret_r {
                                                Err(_) => {
                                                    assert(false);
                                                },
                                                Ok((_, j6)) => {
                                                    if step_ok(m, i, j6) {
                                                        lemma_wf_block_only(m, j6);
                                                    }
                                                },
                                            }
                                        },
                                    }
                                },
                            }
                        },
                    }
                },
            }
        },
    }
}

/// Everything the top level parses is well-formed.
proof fn lemma_wf_top(m: Seq<TokenModel>, i: int)
    ensures
        spec_parse_top(m, i) matches Ok(((fs, ss), _)) ==> (forall|k: int|
            0 <= k < fs.len() ==> stmts_wf((#[trigger] fs[k]).body)) && stmts_wf(ss),
    decreases m.len() - i, 11int,
{
    if 0 <= i < m.len() {
        if m[i].kind is KwFunction {
            match spec_parse_func_decl(m, i) {
                Err(_) => {},
                Ok((f, j)) => {
                    lemma_wf_func_decl(m, i);
                    if step_ok(m, i, j) {
                        lemma_wf_top(m, j);
                        match spec_parse_top(m, j) {
                            Err(_) => {},
                            Ok(((fs, ss), _)) => {
                                assert(forall|k: int|
                                    0 <= k < (seq![f] + fs).len() ==> stmts_wf(
                                        (#[trigger] (seq![f] + fs)[k]).body,
                                    ));
                            },
                        }
                    }
                },
            }
        } else {
            match spec_parse_stmt(m, i) {
                Err(_) => {},
                Ok((s, j)) => {
                    lemma_wf_stmt(m, i);
                    if step_ok(m, i, j) {
                        lemma_wf_top(m, j);
                        match spec_parse_top(m, j) {
                            Err(_) => {},
                            Ok(((fs, ss), _)) => {
                                assert(forall|k: int|
                                    0 <= k < (seq![s] + ss).len() ==> stmt_wf(
                                        #[trigger] (seq![s] + ss)[k],
                                    ));
                            },
                        }
                    }
                },
            }
        }
    }
}

/// Under a value-discarding context, the return rule never bites.
proof fn lemma_returns_ok_void(s: StmtModel)
    ensures
        stmt_returns_ok(s, true),
    decreases s, 0int, 1int,
{
    match s {
        StmtModel::Block(ss) => {
            lemma_returns_ok_void_seq(ss);
        },
        StmtModel::If(_, t, e) => {
            lemma_returns_ok_void(*t);
            lemma_returns_ok_void(*e);
        },
        StmtModel::While(_, b) => {
            lemma_returns_ok_void(*b);
        },
        _ => {},
    }
}

/// Under a value-discarding context, the return rule never bites.
proof fn lemma_returns_ok_void_seq(ss: Seq<StmtModel>)
    ensures
        stmts_returns_ok(ss, true),
    decreases ss, 0int, 0int,
{
    assert forall|i: int| 0 <= i < ss.len() implies stmt_returns_ok(#[trigger] ss[i], true) by {
        lemma_returns_ok_void(ss[i]);
    }
}

/// Round-trip structural property, success half: any source text that
/// lexes and parses also generates, provided each function's body
/// obeys the return-value rule under the function's effective return
/// type (the only shape the generator refuses; a bare `return;` in a
/// function whose effective type carries a value is the
/// `ReturnValueRequired` diagnostic, exactly as the generator's own
/// contract states).
pub proof fn round_trip_generates(s: Seq<char>, p: ProgramModel)
    requires
        spec_parse_src(s) == Ok::<ProgramModel, ErrModel>(p),
        prog_returns_ok(p),
    ensures
        spec_generate(p) is Ok,
{
    match spec_lex(s) {
        Err(_) => {
            assert(false);
        },
        Ok(ts) => {
            match spec_parse_top(ts, 0) {
                Err(_) => {
                    assert(false);
                },
                Ok(((fs, ss), _)) => {
                    lemma_wf_top(ts, 0);
                    assert(p.funcs == fs && p.stmts == ss);
                },
            }
            lemma_gen_funcs_ok(p.funcs, 0);
            lemma_returns_ok_void_seq(p.stmts);
            lemma_gen_stmts_ok(p.stmts, 0, 1, ReturnCtx::Main);
        },
    }
}

} // verus!
