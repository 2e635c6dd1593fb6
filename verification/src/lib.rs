//! A verified source-to-source compiler for a small statically scoped
//! scripting-language subset, emitting Rust source text.
//!
//! The pipeline is `text -> tokens -> AST -> text`:
//! the [`lexer`] turns source text into tokens, the [`parser`] turns
//! tokens into an abstract syntax tree, and the [`codegen`] module
//! prints the tree as Rust.  Every stage is a pure function of its
//! input and fails fast with a single [`Error`] diagnostic; every
//! stage's contract ties it to a functional model of the stage, and
//! the two entry points here compose those models.

use vstd::prelude::*;

pub mod span;
pub mod error;
pub mod token;
pub mod ast;
pub mod ast_eq;
pub mod chars;
pub mod lexer;
pub mod parser;
pub mod codegen;
pub mod props;

pub use span::Span;
pub use error::Error;
pub use token::{Token, TokenKind};
pub use ast::{
    Callee, CallExpr, Expr, FuncDecl, Literal, Param, Program, Stmt, TypeAnn, VarDecl,
};
pub use lexer::lex;
pub use parser::parse as parse_tokens;

use error::{ErrModel, err_view};
use ast::{ProgramModel, program_view};
use lexer::spec_lex;
use parser::spec_parse;
use codegen::spec_generate;

verus! {

/// What parsing a source text denotes: lexing composed with parsing.
pub open spec fn spec_parse_src(s: Seq<char>) -> Result<ProgramModel, ErrModel> {
    match spec_lex(s) {
        Err(e) => Err(e),
        Ok(ts) => spec_parse(ts),
    }
}

/// What compiling a source text denotes: lexing, parsing and code
/// generation composed, failing with the first diagnostic any stage
/// raises.
pub open spec fn spec_compile(s: Seq<char>) -> Result<Seq<char>, ErrModel> {
    match spec_parse_src(s) {
        Err(e) => Err(e),
        Ok(p) => spec_generate(p),
    }
}

/// Parses a source text straight to its syntax tree: exactly what
/// [`spec_parse_src`] says of the text's characters.
pub fn parse_program(src: &str) -> (r: Result<Program, Error>)
    ensures
        match r {
            Ok(p) => spec_parse_src(src@) == Ok::<ProgramModel, ErrModel>(program_view(p)),
            Err(e) => spec_parse_src(src@) == Err::<ProgramModel, ErrModel>(err_view(e)),
        },
{
    let tokens = match lexer::lex(src) {
        Ok(ts) => ts,
        Err(e) => {
            return Err(e);
        },
    };
    parser::parse(tokens.as_slice())
}

/// Compiles a source text of the input subset into Rust source text:
/// exactly what [`spec_compile`] says of the text's characters.
pub fn compile(src: &str) -> (r: Result<String, Error>)
    ensures
        match r {
            Ok(out) => spec_compile(src@) == Ok::<Seq<char>, ErrModel>(out@),
            Err(e) => spec_compile(src@) == Err::<Seq<char>, ErrModel>(err_view(e)),
        },
{
    let program = match parse_program(src) {
        Ok(p) => p,
        Err(e) => {
            return Err(e);
        },
    };
    codegen::generate(&program)
}

} // verus!
