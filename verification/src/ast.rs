//! The abstract syntax tree, and its mathematical model.
//!
//! The executable tree (`Program`, `Stmt`, `Expr`, ...) owns every child
//! exclusively, so it is acyclic by construction.  Beside it stands a
//! ghost model (`ProgramModel`, `StmtModel`, `ExprModel`, ...) in which
//! strings are character sequences and vectors are sequences; the
//! `*_view` functions map the one onto the other, and every parser and
//! code-generator contract speaks of the model.
//!
//! Equality on the recursive node types is written by hand (a derived
//! `PartialEq` on a tree that recurses through `Vec` is not something
//! the verifier can give a meaning to); each handwritten `eq` is proved
//! equal to a structural spec-level equality.

use vstd::prelude::*;

verus! {

/// A whole program: its top-level function declarations and its other
/// top-level statements, each list in source order.
#[derive(Debug)]
pub struct Program {
    pub funcs: Vec<FuncDecl>,
    pub stmts: Vec<Stmt>,
}

/// A top-level function declaration:
/// `function name(param[: type], ...)[: type] { stmts }`.
#[derive(Debug)]
pub struct FuncDecl {
    pub name: String,
    pub params: Vec<Param>,
    pub ret_type: Option<TypeAnn>,
    pub body: BlockStmt,
}

/// One function parameter with its optional type annotation.
#[derive(Clone, Debug)]
pub struct Param {
    pub name: String,
    pub ty: Option<TypeAnn>,
}

/// The closed set of type annotations the grammar knows.
#[derive(Clone, Copy, Debug, PartialEq, Eq, Structural)]
pub enum TypeAnn {
    Number,
    String,
    Boolean,
    Void,
}

/// A statement.
#[derive(Debug)]
pub enum Stmt {
    /// `let x = expr;` or `const x = expr;`
    VarDecl(VarDecl),
    /// `x = expr;`
    Assign(AssignStmt),
    /// `expr;`
    ExprStmt(Expr),
    /// `{ stmt* }`
    Block(BlockStmt),
    /// `if (cond) stmt else stmt` — the else branch is never optional.
    If(IfStmt),
    /// `while (cond) stmt`
    While(WhileStmt),
    /// `return expr?;`
    Return(ReturnStmt),
}

/// A variable declaration.
#[derive(Debug)]
pub struct VarDecl {
    /// True for `const`, false for `let`.
    pub is_const: bool,
    pub name: String,
    pub init: Expr,
}

/// An assignment statement `name = value;`.
#[derive(Debug)]
pub struct AssignStmt {
    pub name: String,
    pub value: Expr,
}

/// A block `{ stmt* }`.
#[derive(Debug)]
pub struct BlockStmt {
    pub stmts: Vec<Stmt>,
}

/// An `if`/`else` statement.
#[derive(Debug)]
pub struct IfStmt {
    pub cond: Expr,
    pub then_branch: Box<Stmt>,
    pub else_branch: Box<Stmt>,
}

/// A `while` statement.
#[derive(Debug)]
pub struct WhileStmt {
    pub cond: Expr,
    pub body: Box<Stmt>,
}

/// A `return` statement with optional value.
#[derive(Debug)]
pub struct ReturnStmt {
    pub value: Option<Expr>,
}

/// An expression.
#[derive(Debug)]
pub enum Expr {
    /// `123`, `"abc"`, `true`
    Literal(Literal),
    /// A reference to a name: `x`.
    Ident(String),
    /// `!x`, `-x`
    Unary(UnaryExpr),
    /// `a + b`, `a && b`, ...
    Binary(BinaryExpr),
    /// `(expr)` — kept in the tree so the generator can reproduce the
    /// written parentheses exactly.
    Group(Box<Expr>),
    /// A call: the built-in print form or `name(args...)`.
    Call(CallExpr),
}

/// A unary operation.
#[derive(Debug)]
pub struct UnaryExpr {
    pub op: UnaryOp,
    pub expr: Box<Expr>,
}

/// The unary operators.
#[derive(Clone, Copy, Debug, PartialEq, Eq, Structural)]
pub enum UnaryOp {
    Not,
    Neg,
}

/// A binary operation.
#[derive(Debug)]
pub struct BinaryExpr {
    pub op: BinaryOp,
    pub left: Box<Expr>,
    pub right: Box<Expr>,
}

/// The binary operators.
#[derive(Clone, Copy, Debug, PartialEq, Eq, Structural)]
pub enum BinaryOp {
    Add,
    Sub,
    Mul,
    Div,
    Mod,
    EqEq,
    NotEq,
    Lt,
    LtEq,
    Gt,
    GtEq,
    AndAnd,
    OrOr,
}

/// A call expression.
#[derive(Debug)]
pub struct CallExpr {
    pub callee: Callee,
    pub args: Vec<Expr>,
}

/// What is being called: the built-in print form, or a plain name.
#[derive(Clone, Debug)]
pub enum Callee {
    ConsoleLog,
    Ident(String),
}

/// A literal value.
#[derive(Clone, Debug)]
pub enum Literal {
    /// A number; the grammar's numbers are 32-bit signed integers.
    Number(i32),
    /// A string, already escape-decoded.
    String(String),
    /// A boolean.
    Bool(bool),
}

// ------------------------------------------------------------------
// The ghost model.
// ------------------------------------------------------------------

/// Model of a [`Literal`].
pub enum LitModel {
    Num(i32),
    Str(Seq<char>),
    Bool(bool),
}

/// Model of a [`Callee`].
pub enum CalleeModel {
    ConsoleLog,
    Ident(Seq<char>),
}

/// Model of an [`Expr`].
pub enum ExprModel {
    Lit(LitModel),
    Ident(Seq<char>),
    Unary(UnaryOp, Box<ExprModel>),
    Binary(BinaryOp, Box<ExprModel>, Box<ExprModel>),
    Group(Box<ExprModel>),
    Call(CalleeModel, Seq<ExprModel>),
}

/// Model of a [`Stmt`].
pub enum StmtModel {
    VarDecl { is_const: bool, name: Seq<char>, init: ExprModel },
    Assign { name: Seq<char>, value: ExprModel },
    ExprStmt(ExprModel),
    Block(Seq<StmtModel>),
    If(ExprModel, Box<StmtModel>, Box<StmtModel>),
    While(ExprModel, Box<StmtModel>),
    Return(Option<ExprModel>),
}

/// Model of a [`Param`].
pub struct ParamModel {
    pub name: Seq<char>,
    pub ty: Option<TypeAnn>,
}

/// Model of a [`FuncDecl`].
pub struct FuncModel {
    pub name: Seq<char>,
    pub params: Seq<ParamModel>,
    pub ret_type: Option<TypeAnn>,
    pub body: Seq<StmtModel>,
}

/// Model of a [`Program`].
pub struct ProgramModel {
    pub funcs: Seq<FuncModel>,
    pub stmts: Seq<StmtModel>,
}

/// What a [`Literal`] denotes.
pub open spec fn lit_view(l: Literal) -> LitModel {
    match l {
        Literal::Number(n) => LitModel::Num(n),
        Literal::String(s) => LitModel::Str(s@),
        Literal::Bool(b) => LitModel::Bool(b),
    }
}

/// What a [`Callee`] denotes.
pub open spec fn callee_view(c: Callee) -> CalleeModel {
    match c {
        Callee::ConsoleLog => CalleeModel::ConsoleLog,
        Callee::Ident(s) => CalleeModel::Ident(s@),
    }
}

/// What an [`Expr`] denotes.
pub open spec fn expr_view(e: Expr) -> ExprModel
    decreases e,
{
    match e {
        Expr::Literal(l) => ExprModel::Lit(lit_view(l)),
        Expr::Ident(s) => ExprModel::Ident(s@),
        Expr::Unary(u) => ExprModel::Unary(u.op, Box::new(expr_view(*u.expr))),
        Expr::Binary(b) => ExprModel::Binary(
            b.op,
            Box::new(expr_view(*b.left)),
            Box::new(expr_view(*b.right)),
        ),
        Expr::Group(g) => ExprModel::Group(Box::new(expr_view(*g))),
        Expr::Call(c) => ExprModel::Call(callee_view(c.callee), exprs_view(c.args@)),
    }
}

/// What a sequence of [`Expr`]s denotes.
pub open spec fn exprs_view(es: Seq<Expr>) -> Seq<ExprModel>
    decreases es,
{
    Seq::new(
        es.len(),
        |i: int|
            if 0 <= i < es.len() {
                expr_view(es[i])
            } else {
                arbitrary()
            },
    )
}

/// What a [`Stmt`] denotes.
pub open spec fn stmt_view(s: Stmt) -> StmtModel
    decreases s,
{
    match s {
        Stmt::VarDecl(v) => StmtModel::VarDecl {
            is_const: v.is_const,
            name: v.name@,
            init: expr_view(v.init),
        },
        Stmt::Assign(a) => StmtModel::Assign { name: a.name@, value: expr_view(a.value) },
        Stmt::ExprStmt(e) => StmtModel::ExprStmt(expr_view(e)),
        Stmt::Block(b) => StmtModel::Block(stmts_view(b.stmts@)),
        Stmt::If(i) => StmtModel::If(
            expr_view(i.cond),
            Box::new(stmt_view(*i.then_branch)),
            Box::new(stmt_view(*i.else_branch)),
        ),
        Stmt::While(w) => StmtModel::While(expr_view(w.cond), Box::new(stmt_view(*w.body))),
        Stmt::Return(r) => StmtModel::Return(
            match r.value {
                Some(e) => Some(expr_view(e)),
                None => None,
            },
        ),
    }
}

/// What a sequence of [`Stmt`]s denotes.
pub open spec fn stmts_view(ss: Seq<Stmt>) -> Seq<StmtModel>
    decreases ss,
{
    Seq::new(
        ss.len(),
        |i: int|
            if 0 <= i < ss.len() {
                stmt_view(ss[i])
            } else {
                arbitrary()
            },
    )
}

/// What a [`Param`] denotes.
pub open spec fn param_view(p: Param) -> ParamModel {
    ParamModel { name: p.name@, ty: p.ty }
}

/// What a sequence of [`Param`]s denotes.
pub open spec fn params_view(ps: Seq<Param>) -> Seq<ParamModel> {
    ps.map(|i: int, p: Param| param_view(p))
}

/// What a [`FuncDecl`] denotes.
pub open spec fn func_view(f: FuncDecl) -> FuncModel {
    FuncModel {
        name: f.name@,
        params: params_view(f.params@),
        ret_type: f.ret_type,
        body: stmts_view(f.body.stmts@),
    }
}

/// What a sequence of [`FuncDecl`]s denotes.
pub open spec fn funcs_view(fs: Seq<FuncDecl>) -> Seq<FuncModel> {
    fs.map(|i: int, f: FuncDecl| func_view(f))
}

/// What a [`Program`] denotes.
pub open spec fn program_view(p: Program) -> ProgramModel {
    ProgramModel { funcs: funcs_view(p.funcs@), stmts: stmts_view(p.stmts@) }
}

} // verus!
