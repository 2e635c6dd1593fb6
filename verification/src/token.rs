//! Tokens: the classified, positioned lexical units the lexer produces.

use vstd::prelude::*;
use crate::span::Span;

verus! {

/// One lexical unit: its kind and where it stands in the source.
#[derive(Clone, Debug, PartialEq, Eq)]
pub struct Token {
    pub kind: TokenKind,
    pub span: Span,
}

/// The closed set of token kinds.
#[derive(Clone, Debug, PartialEq, Eq)]
pub enum TokenKind {
    // Keywords.
    KwLet,
    KwConst,
    KwFunction,
    KwIf,
    KwElse,
    KwWhile,
    KwReturn,
    KwTrue,
    KwFalse,
    // Value-carrying kinds.
    /// An identifier such as `abc`, `x1` or `_tmp`.
    Ident(String),
    /// An integer literal; a run of digits that does not fit is a
    /// lex-time error, so the carried value is always exact.
    Number(i32),
    /// A string literal, already escape-decoded.
    String(String),
    // Punctuation.
    LParen,
    RParen,
    LBrace,
    RBrace,
    Comma,
    Dot,
    Colon,
    Semicolon,
    // Operators.
    Plus,
    Minus,
    Star,
    Slash,
    Percent,
    EqEq,
    NotEq,
    LtEq,
    GtEq,
    Lt,
    Gt,
    AndAnd,
    OrOr,
    Not,
    Eq,
}

/// The mathematical image of a [`TokenKind`]: carried strings become
/// character sequences.
pub enum KindModel {
    KwLet,
    KwConst,
    KwFunction,
    KwIf,
    KwElse,
    KwWhile,
    KwReturn,
    KwTrue,
    KwFalse,
    Ident(Seq<char>),
    Number(i32),
    StrLit(Seq<char>),
    LParen,
    RParen,
    LBrace,
    RBrace,
    Comma,
    Dot,
    Colon,
    Semicolon,
    Plus,
    Minus,
    Star,
    Slash,
    Percent,
    EqEq,
    NotEq,
    LtEq,
    GtEq,
    Lt,
    Gt,
    AndAnd,
    OrOr,
    Not,
    Eq,
}

/// The mathematical image of a [`Token`].
pub struct TokenModel {
    pub kind: KindModel,
    pub span: Span,
}

/// What a [`TokenKind`] value denotes.
pub open spec fn kind_view(k: TokenKind) -> KindModel {
    match k {
        TokenKind::KwLet => KindModel::KwLet,
        TokenKind::KwConst => KindModel::KwConst,
        TokenKind::KwFunction => KindModel::KwFunction,
        TokenKind::KwIf => KindModel::KwIf,
        TokenKind::KwElse => KindModel::KwElse,
        TokenKind::KwWhile => KindModel::KwWhile,
        TokenKind::KwReturn => KindModel::KwReturn,
        TokenKind::KwTrue => KindModel::KwTrue,
        TokenKind::KwFalse => KindModel::KwFalse,
        TokenKind::Ident(s) => KindModel::Ident(s@),
        TokenKind::Number(n) => KindModel::Number(n),
        TokenKind::String(s) => KindModel::StrLit(s@),
        TokenKind::LParen => KindModel::LParen,
        TokenKind::RParen => KindModel::RParen,
        TokenKind::LBrace => KindModel::LBrace,
        TokenKind::RBrace => KindModel::RBrace,
        TokenKind::Comma => KindModel::Comma,
        TokenKind::Dot => KindModel::Dot,
        TokenKind::Colon => KindModel::Colon,
        TokenKind::Semicolon => KindModel::Semicolon,
        TokenKind::Plus => KindModel::Plus,
        TokenKind::Minus => KindModel::Minus,
        TokenKind::Star => KindModel::Star,
        TokenKind::Slash => KindModel::Slash,
        TokenKind::Percent => KindModel::Percent,
        TokenKind::EqEq => KindModel::EqEq,
        TokenKind::NotEq => KindModel::NotEq,
        TokenKind::LtEq => KindModel::LtEq,
        TokenKind::GtEq => KindModel::GtEq,
        TokenKind::Lt => KindModel::Lt,
        TokenKind::Gt => KindModel::Gt,
        TokenKind::AndAnd => KindModel::AndAnd,
        TokenKind::OrOr => KindModel::OrOr,
        TokenKind::Not => KindModel::Not,
        TokenKind::Eq => KindModel::Eq,
    }
}

/// What a [`Token`] value denotes.
pub open spec fn token_view(t: Token) -> TokenModel {
    TokenModel { kind: kind_view(t.kind), span: t.span }
}

/// What a sequence of [`Token`]s denotes.
pub open spec fn tokens_view(ts: Seq<Token>) -> Seq<TokenModel> {
    ts.map(|i: int, t: Token| token_view(t))
}

} // verus!
