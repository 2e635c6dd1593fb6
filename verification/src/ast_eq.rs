//! Structural equality for the syntax tree.
//!
//! The recursive node types cannot use a derived `PartialEq` (the
//! verifier gives no meaning to a derive that recurses through `Vec`),
//! so equality is written by hand here and proved equal to the
//! spec-level structural equalities below.

use vstd::prelude::*;
use crate::ast::{Callee, Expr, FuncDecl, Literal, Param, Program, Stmt};

verus! {

/// Structural equality of literals; strings compare by contents.
pub open spec fn lit_eq(a: Literal, b: Literal) -> bool {
    match (a, b) {
        (Literal::Number(x), Literal::Number(y)) => x == y,
        (Literal::String(x), Literal::String(y)) => x@ == y@,
        (Literal::Bool(x), Literal::Bool(y)) => x == y,
        _ => false,
    }
}

/// Structural equality of callees.
pub open spec fn callee_eq(a: Callee, b: Callee) -> bool {
    match (a, b) {
        (Callee::ConsoleLog, Callee::ConsoleLog) => true,
        (Callee::Ident(x), Callee::Ident(y)) => x@ == y@,
        _ => false,
    }
}

/// Structural equality of expressions.
pub open spec fn expr_eq(a: Expr, b: Expr) -> bool
    decreases a,
{
    match (a, b) {
        (Expr::Literal(x), Expr::Literal(y)) => lit_eq(x, y),
        (Expr::Ident(x), Expr::Ident(y)) => x@ == y@,
        (Expr::Unary(x), Expr::Unary(y)) => x.op == y.op && expr_eq(*x.expr, *y.expr),
        (Expr::Binary(x), Expr::Binary(y)) => x.op == y.op && expr_eq(*x.left, *y.left)
            && expr_eq(*x.right, *y.right),
        (Expr::Group(x), Expr::Group(y)) => expr_eq(*x, *y),
        (Expr::Call(x), Expr::Call(y)) => callee_eq(x.callee, y.callee)
            && exprs_eq(x.args@, y.args@),
        _ => false,
    }
}

/// Pointwise structural equality of expression sequences.
pub open spec fn exprs_eq(a: Seq<Expr>, b: Seq<Expr>) -> bool
    decreases a,
{
    a.len() == b.len() && forall|i: int| 0 <= i < a.len() ==> expr_eq(#[trigger] a[i], b[i])
}

/// Structural equality of statements.
pub open spec fn stmt_eq(a: Stmt, b: Stmt) -> bool
    decreases a,
{
    match (a, b) {
        (Stmt::VarDecl(x), Stmt::VarDecl(y)) => x.is_const == y.is_const && x.name@ == y.name@
            && expr_eq(x.init, y.init),
        (Stmt::Assign(x), Stmt::Assign(y)) => x.name@ == y.name@ && expr_eq(x.value, y.value),
        (Stmt::ExprStmt(x), Stmt::ExprStmt(y)) => expr_eq(x, y),
        (Stmt::Block(x), Stmt::Block(y)) => stmts_eq(x.stmts@, y.stmts@),
        (Stmt::If(x), Stmt::If(y)) => expr_eq(x.cond, y.cond)
            && stmt_eq(*x.then_branch, *y.then_branch) && stmt_eq(*x.else_branch, *y.else_branch),
        (Stmt::While(x), Stmt::While(y)) => expr_eq(x.cond, y.cond) && stmt_eq(*x.body, *y.body),
        (Stmt::Return(x), Stmt::Return(y)) => match (x.value, y.value) {
            (None, None) => true,
            (Some(vx), Some(vy)) => expr_eq(vx, vy),
            _ => false,
        },
        _ => false,
    }
}

/// Pointwise structural equality of statement sequences.
pub open spec fn stmts_eq(a: Seq<Stmt>, b: Seq<Stmt>) -> bool
    decreases a,
{
    a.len() == b.len() && forall|i: int| 0 <= i < a.len() ==> stmt_eq(#[trigger] a[i], b[i])
}

/// Structural equality of parameters.
pub open spec fn param_eq(a: Param, b: Param) -> bool {
    a.name@ == b.name@ && a.ty == b.ty
}

/// Structural equality of function declarations.
pub open spec fn func_eq(a: FuncDecl, b: FuncDecl) -> bool {
    &&& a.name@ == b.name@
    &&& a.params@.len() == b.params@.len()
    &&& forall|i: int| 0 <= i < a.params@.len() ==> param_eq(#[trigger] a.params@[i], b.params@[i])
    &&& a.ret_type == b.ret_type
    &&& stmts_eq(a.body.stmts@, b.body.stmts@)
}

/// Structural equality of programs.
pub open spec fn program_eq(a: Program, b: Program) -> bool {
    &&& a.funcs@.len() == b.funcs@.len()
    &&& forall|i: int| 0 <= i < a.funcs@.len() ==> func_eq(#[trigger] a.funcs@[i], b.funcs@[i])
    &&& stmts_eq(a.stmts@, b.stmts@)
}

impl PartialEq for Literal {
    fn eq(&self, other: &Self) -> (r: bool) {
        match (self, other) {
            (Literal::Number(x), Literal::Number(y)) => *x == *y,
            (Literal::String(x), Literal::String(y)) => *x == *y,
            (Literal::Bool(x), Literal::Bool(y)) => *x == *y,
            _ => false,
        }
    }
}

impl vstd::std_specs::cmp::PartialEqSpecImpl for Literal {
    open spec fn obeys_eq_spec() -> bool {
        true
    }

    open spec fn eq_spec(&self, other: &Self) -> bool {
        lit_eq(*self, *other)
    }
}

impl PartialEq for Callee {
    fn eq(&self, other: &Self) -> (r: bool) {
        match (self, other) {
            (Callee::ConsoleLog, Callee::ConsoleLog) => true,
            (Callee::Ident(x), Callee::Ident(y)) => *x == *y,
            _ => false,
        }
    }
}

impl vstd::std_specs::cmp::PartialEqSpecImpl for Callee {
    open spec fn obeys_eq_spec() -> bool {
        true
    }

    open spec fn eq_spec(&self, other: &Self) -> bool {
        callee_eq(*self, *other)
    }
}

impl PartialEq for Param {
    fn eq(&self, other: &Self) -> (r: bool) {
        self.name == other.name && match (self.ty, other.ty) {
            (None, None) => true,
            (Some(x), Some(y)) => x == y,
            _ => false,
        }
    }
}

impl vstd::std_specs::cmp::PartialEqSpecImpl for Param {
    open spec fn obeys_eq_spec() -> bool {
        true
    }

    open spec fn eq_spec(&self, other: &Self) -> bool {
        param_eq(*self, *other)
    }
}

/// Compares two argument lists elementwise.
fn exprs_eq_exec(a: &Vec<Expr>, b: &Vec<Expr>) -> (r: bool)
    ensures
        r == exprs_eq(a@, b@),
    decreases *a,
{
    if a.len() != b.len() {
        return false;
    }
    let n = a.len();
    let mut i: usize = 0;
    while i < n
        invariant
            n == a@.len(),
            a@.len() == b@.len(),
            i <= n,
            forall|j: int| 0 <= j < i ==> expr_eq(#[trigger] a@[j], b@[j]),
        decreases n - i,
    {
        if !(a[i] == b[i]) {
            assert(!expr_eq(a@[i as int], b@[i as int]));
            return false;
        }
        i += 1;
    }
    true
}

impl PartialEq for Expr {
    fn eq(&self, other: &Self) -> (r: bool)
        decreases *self,
    {
        match (self, other) {
            (Expr::Literal(x), Expr::Literal(y)) => *x == *y,
            (Expr::Ident(x), Expr::Ident(y)) => *x == *y,
            (Expr::Unary(x), Expr::Unary(y)) => x.op == y.op && *x.expr == *y.expr,
            (Expr::Binary(x), Expr::Binary(y)) => x.op == y.op && *x.left == *y.left
                && *x.right == *y.right,
            (Expr::Group(x), Expr::Group(y)) => **x == **y,
            (Expr::Call(x), Expr::Call(y)) => x.callee == y.callee
                && exprs_eq_exec(&x.args, &y.args),
            _ => false,
        }
    }
}

impl vstd::std_specs::cmp::PartialEqSpecImpl for Expr {
    open spec fn obeys_eq_spec() -> bool {
        true
    }

    open spec fn eq_spec(&self, other: &Self) -> bool {
        expr_eq(*self, *other)
    }
}

/// Compares two statement lists elementwise.
fn stmts_eq_exec(a: &Vec<Stmt>, b: &Vec<Stmt>) -> (r: bool)
    ensures
        r == stmts_eq(a@, b@),
    decreases *a,
{
    if a.len() != b.len() {
        return false;
    }
    let n = a.len();
    let mut i: usize = 0;
    while i < n
        invariant
            n == a@.len(),
            a@.len() == b@.len(),
            i <= n,
            forall|j: int| 0 <= j < i ==> stmt_eq(#[trigger] a@[j], b@[j]),
        decreases n - i,
    {
        if !(a[i] == b[i]) {
            assert(!stmt_eq(a@[i as int], b@[i as int]));
            return false;
        }
        i += 1;
    }
    true
}

impl PartialEq for Stmt {
    fn eq(&self, other: &Self) -> (r: bool)
        decreases *self,
    {
        match (self, other) {
            (Stmt::VarDecl(x), Stmt::VarDecl(y)) => x.is_const == y.is_const && x.name == y.name
                && x.init == y.init,
            (Stmt::Assign(x), Stmt::Assign(y)) => x.name == y.name && x.value == y.value,
            (Stmt::ExprStmt(x), Stmt::ExprStmt(y)) => *x == *y,
            (Stmt::Block(x), Stmt::Block(y)) => stmts_eq_exec(&x.stmts, &y.stmts),
            (Stmt::If(x), Stmt::If(y)) => x.cond == y.cond && *x.then_branch == *y.then_branch
                && *x.else_branch == *y.else_branch,
            (Stmt::While(x), Stmt::While(y)) => x.cond == y.cond && *x.body == *y.body,
            (Stmt::Return(x), Stmt::Return(y)) => match (&x.value, &y.value) {
                (None, None) => true,
                (Some(vx), Some(vy)) => *vx == *vy,
                _ => false,
            },
            _ => false,
        }
    }
}

impl vstd::std_specs::cmp::PartialEqSpecImpl for Stmt {
    open spec fn obeys_eq_spec() -> bool {
        true
    }

    open spec fn eq_spec(&self, other: &Self) -> bool {
        stmt_eq(*self, *other)
    }
}

/// Compares two parameter lists elementwise.
fn params_eq_exec(a: &Vec<Param>, b: &Vec<Param>) -> (r: bool)
    ensures
        r == (a@.len() == b@.len() && forall|i: int|
            0 <= i < a@.len() ==> param_eq(#[trigger] a@[i], b@[i])),
{
    if a.len() != b.len() {
        return false;
    }
    let n = a.len();
    let mut i: usize = 0;
    while i < n
        invariant
            n == a@.len(),
            a@.len() == b@.len(),
            i <= n,
            forall|j: int| 0 <= j < i ==> param_eq(#[trigger] a@[j], b@[j]),
        decreases n - i,
    {
        if !(a[i] == b[i]) {
            assert(!param_eq(a@[i as int], b@[i as int]));
            return false;
        }
        i += 1;
    }
    true
}

impl PartialEq for FuncDecl {
    fn eq(&self, other: &Self) -> (r: bool) {
        self.name == other.name && params_eq_exec(&self.params, &other.params)
            && match (self.ret_type, other.ret_type) {
            (None, None) => true,
            (Some(x), Some(y)) => x == y,
            _ => false,
        } && stmts_eq_exec(&self.body.stmts, &other.body.stmts)
    }
}

impl vstd::std_specs::cmp::PartialEqSpecImpl for FuncDecl {
    open spec fn obeys_eq_spec() -> bool {
        true
    }

    open spec fn eq_spec(&self, other: &Self) -> bool {
        func_eq(*self, *other)
    }
}

/// Compares two function lists elementwise.
fn funcs_eq_exec(a: &Vec<FuncDecl>, b: &Vec<FuncDecl>) -> (r: bool)
    ensures
        r == (a@.len() == b@.len() && forall|i: int|
            0 <= i < a@.len() ==> func_eq(#[trigger] a@[i], b@[i])),
{
    if a.len() != b.len() {
        return false;
    }
    let n = a.len();
    let mut i: usize = 0;
    while i < n
        invariant
            n == a@.len(),
            a@.len() == b@.len(),
            i <= n,
            forall|j: int| 0 <= j < i ==> func_eq(#[trigger] a@[j], b@[j]),
        decreases n - i,
    {
        if !(a[i] == b[i]) {
            assert(!func_eq(a@[i as int], b@[i as int]));
            return false;
        }
        i += 1;
    }
    true
}

impl PartialEq for Program {
    fn eq(&self, other: &Self) -> (r: bool) {
        funcs_eq_exec(&self.funcs, &other.funcs) && stmts_eq_exec(&self.stmts, &other.stmts)
    }
}

impl vstd::std_specs::cmp::PartialEqSpecImpl for Program {
    open spec fn obeys_eq_spec() -> bool {
        true
    }

    open spec fn eq_spec(&self, other: &Self) -> bool {
        program_eq(*self, *other)
    }
}

} // verus!
