//! The lexer: source text in, tokens out.
//!
//! The executable scanner threads an explicit [`Cursor`] through the
//! character vector; beside it stands a functional model
//! ([`spec_lex`] and its helpers) over the character sequence, and the
//! contract of every scanning function says that it computes exactly
//! what the model says.
//!
//! Position bookkeeping in the model uses saturating increments; a
//! counter can only reach the saturation point on inputs longer than
//! the address space, which no real input attains.

use vstd::prelude::*;
use crate::span::Span;
use crate::token::{KindModel, Token, TokenKind, TokenModel, token_view, tokens_view};
use crate::error::{ErrModel, Error, err_model, err_view};
use crate::chars::{chars_eq_str, chars_to_string, to_chars};

verus! {

// ------------------------------------------------------------------
// Cursors and positions.
// ------------------------------------------------------------------

/// The scanner's position: a character index into the input plus the
/// derived byte offset and 1-based line/column coordinates.
#[derive(Clone, Copy, Debug, PartialEq, Eq, Structural)]
pub struct Cursor {
    /// Index into the character sequence.
    pub i: usize,
    /// Byte offset of that character in the UTF-8 text.
    pub byte: usize,
    /// Line, counting from 1; a newline begins a new line.
    pub line: usize,
    /// Column, counting from 1, in characters.
    pub col: usize,
}

/// The cursor at the very start of the input.
pub open spec fn start_cursor() -> Cursor {
    Cursor { i: 0, byte: 0, line: 1, col: 1 }
}

/// Saturating addition; the counters can never overflow, they pin at
/// the top of the range (which no real input reaches).
pub open spec fn sat_add(a: usize, b: usize) -> usize {
    if a + b <= usize::MAX {
        (a + b) as usize
    } else {
        usize::MAX
    }
}

/// How many bytes the UTF-8 encoding of a character takes.
pub open spec fn char_width(c: char) -> usize {
    if (c as u32) < 0x80 {
        1
    } else if (c as u32) < 0x800 {
        2
    } else if (c as u32) < 0x10000 {
        3
    } else {
        4
    }
}

/// One character step: the index and byte offset advance, and a
/// newline starts the next line at column 1.
pub open spec fn adv(st: Cursor, c: char) -> Cursor {
    Cursor {
        i: sat_add(st.i, 1),
        byte: sat_add(st.byte, char_width(c)),
        line: if c == '\n' {
            sat_add(st.line, 1)
        } else {
            st.line
        },
        col: if c == '\n' {
            1
        } else {
            sat_add(st.col, 1)
        },
    }
}

/// The cursor after stepping from `st` over every character up to
/// (excluding) index `j`.
pub open spec fn adv_to(s: Seq<char>, st: Cursor, j: int) -> Cursor
    decreases j - st.i,
{
    if st.i < j && j <= s.len() {
        adv(adv_to(s, st, j - 1), s[j - 1])
    } else {
        st
    }
}

/// The span of the text between two cursors.
pub open spec fn span_between(a: Cursor, b: Cursor) -> Span {
    Span {
        start: a.byte,
        end: b.byte,
        start_line: a.line,
        start_col: a.col,
        end_line: b.line,
        end_col: b.col,
    }
}

/// The degenerate span pointing at one position, used by diagnostics.
pub open spec fn span_at(p: Cursor) -> Span {
    Span {
        start: p.byte,
        end: p.byte,
        start_line: p.line,
        start_col: p.col,
        end_line: p.line,
        end_col: p.col,
    }
}

// ------------------------------------------------------------------
// Character classes.
// ------------------------------------------------------------------

/// Whitespace: space, tab, carriage return, newline.
pub open spec fn is_ws_char(c: char) -> bool {
    c == ' ' || c == '\t' || c == '\r' || c == '\n'
}

/// An ASCII decimal digit.
pub open spec fn is_digit_char(c: char) -> bool {
    '0' <= c && c <= '9'
}

/// A character that may begin an identifier: a letter or `_`.
pub open spec fn is_ident_start_char(c: char) -> bool {
    c == '_' || ('a' <= c && c <= 'z') || ('A' <= c && c <= 'Z')
}

/// A character that may continue an identifier.
pub open spec fn is_ident_continue_char(c: char) -> bool {
    is_ident_start_char(c) || is_digit_char(c)
}

// ------------------------------------------------------------------
// The scanning model.
// ------------------------------------------------------------------

/// End of the maximal digit run starting at `i`.
pub open spec fn digits_end(s: Seq<char>, i: int) -> int
    decreases s.len() - i,
{
    if 0 <= i < s.len() && is_digit_char(s[i]) {
        digits_end(s, i + 1)
    } else {
        i
    }
}

/// End of the maximal identifier run starting at `i`.
pub open spec fn ident_end(s: Seq<char>, i: int) -> int
    decreases s.len() - i,
{
    if 0 <= i < s.len() && is_ident_continue_char(s[i]) {
        ident_end(s, i + 1)
    } else {
        i
    }
}

/// End of a line comment: the position of the terminating newline (or
/// the end of input).
pub open spec fn line_end(s: Seq<char>, i: int) -> int
    decreases s.len() - i,
{
    if 0 <= i < s.len() && s[i] != '\n' {
        line_end(s, i + 1)
    } else {
        i
    }
}

/// Where a block comment body ends: the first position at or after `i`
/// where `*/` begins, or the end of input if it never does.
pub open spec fn block_end(s: Seq<char>, i: int) -> int
    decreases s.len() - i,
{
    if 0 <= i && i + 1 < s.len() && s[i] == '*' && s[i + 1] == '/' {
        i
    } else if 0 <= i < s.len() {
        block_end(s, i + 1)
    } else {
        i
    }
}

/// The numeric value of a digit character.
pub open spec fn digit_val(c: char) -> int {
    c as u32 - '0' as u32
}

/// The value of a digit run read in base ten.
pub open spec fn digits_val(ds: Seq<char>) -> int
    decreases ds.len(),
{
    if ds.len() == 0 {
        0
    } else {
        digits_val(ds.drop_last()) * 10 + digit_val(ds.last())
    }
}

/// What a backslash escape denotes inside a string literal: the five
/// named escapes decode, any other escaped character passes through.
pub open spec fn esc_char(c: char) -> char {
    if c == 'n' {
        '\n'
    } else if c == 't' {
        '\t'
    } else if c == 'r' {
        '\r'
    } else {
        c
    }
}

/// Keyword recognition: the nine reserved words by exact match, any
/// other word is an identifier.
pub open spec fn classify_word(w: Seq<char>) -> KindModel {
    if w == "let"@ {
        KindModel::KwLet
    } else if w == "const"@ {
        KindModel::KwConst
    } else if w == "function"@ {
        KindModel::KwFunction
    } else if w == "if"@ {
        KindModel::KwIf
    } else if w == "else"@ {
        KindModel::KwElse
    } else if w == "while"@ {
        KindModel::KwWhile
    } else if w == "return"@ {
        KindModel::KwReturn
    } else if w == "true"@ {
        KindModel::KwTrue
    } else if w == "false"@ {
        KindModel::KwFalse
    } else {
        KindModel::Ident(w)
    }
}

/// Skips whitespace and both comment forms; an unclosed block comment
/// is a diagnostic at the position where `/*` began.
pub open spec fn spec_skip_ws(s: Seq<char>, st: Cursor) -> Result<Cursor, ErrModel>
    decreases s.len() - st.i,
{
    if st.i < s.len() && st.i < usize::MAX && is_ws_char(s[st.i as int]) {
        spec_skip_ws(s, adv(st, s[st.i as int]))
    } else if st.i + 1 < s.len() && s[st.i as int] == '/' && s[st.i as int + 1] == '/' {
        let st2 = adv_to(s, st, line_end(s, st.i + 2));
        if st.i < st2.i && st2.i <= s.len() {
            spec_skip_ws(s, st2)
        } else {
            Ok(st2)
        }
    } else if st.i + 1 < s.len() && s[st.i as int] == '/' && s[st.i as int + 1] == '*' {
        let j = block_end(s, st.i + 2);
        if j + 1 < s.len() {
            let st2 = adv_to(s, st, j + 2);
            if st.i < st2.i && st2.i <= s.len() {
                spec_skip_ws(s, st2)
            } else {
                Ok(st2)
            }
        } else {
            Err(err_model("UnterminatedBlockComment"@, span_at(st)))
        }
    } else {
        Ok(st)
    }
}

/// Scans an integer literal: the maximal digit run, read in base ten;
/// a value that does not fit in 32 signed bits is a diagnostic.
pub open spec fn spec_lex_number(s: Seq<char>, st: Cursor) -> Result<(TokenModel, Cursor), ErrModel> {
    let j = digits_end(s, st.i as int);
    let v = digits_val(s.subrange(st.i as int, j));
    let e = adv_to(s, st, j);
    if v > 0x7fff_ffff {
        Err(err_model("InvalidNumber"@, span_at(st)))
    } else {
        Ok((TokenModel { kind: KindModel::Number(v as i32), span: span_between(st, e) }, e))
    }
}

/// Scans the body of a string literal, decoding escapes as it goes;
/// `st` stands on the character after the opening quote and `start`
/// remembers where the literal began.
pub open spec fn spec_str_body(s: Seq<char>, st: Cursor, start: Cursor, acc: Seq<char>) -> Result<
    (TokenModel, Cursor),
    ErrModel,
>
    decreases s.len() - st.i,
{
    if st.i >= s.len() || st.i >= usize::MAX {
        Err(err_model("UnterminatedString"@, span_at(start)))
    } else {
        let c = s[st.i as int];
        if c == '"' {
            let e = adv(st, c);
            Ok((TokenModel { kind: KindModel::StrLit(acc), span: span_between(start, e) }, e))
        } else if c == '\n' {
            Err(err_model("UnterminatedString"@, span_at(start)))
        } else if c == '\\' {
            let st2 = adv(st, c);
            if st2.i >= s.len() || st2.i >= usize::MAX {
                Err(err_model("UnterminatedString"@, span_at(start)))
            } else {
                let ec = s[st2.i as int];
                spec_str_body(s, adv(st2, ec), start, acc.push(esc_char(ec)))
            }
        } else {
            spec_str_body(s, adv(st, c), start, acc.push(c))
        }
    }
}

/// Scans a string literal from its opening quote.
pub open spec fn spec_lex_string(s: Seq<char>, st: Cursor) -> Result<(TokenModel, Cursor), ErrModel> {
    spec_str_body(s, adv(st, '"'), st, Seq::empty())
}

/// Scans an identifier or keyword.
pub open spec fn spec_lex_word(s: Seq<char>, st: Cursor) -> (TokenModel, Cursor) {
    let j = ident_end(s, st.i as int);
    let w = s.subrange(st.i as int, j);
    let e = adv_to(s, st, j);
    (TokenModel { kind: classify_word(w), span: span_between(st, e) }, e)
}

/// Scans one token at `st`, which must stand on a non-whitespace,
/// non-comment character.  Classification order: punctuation and
/// operators (two-character operators take their second character;
/// a lone `&` or `|` is an error), string literals, numbers, words.
pub open spec fn spec_next_token(s: Seq<char>, st: Cursor) -> Result<(TokenModel, Cursor), ErrModel> {
    if st.i >= s.len() {
        Err(err_model("UnexpectedEof"@, span_at(st)))
    } else {
        let i = st.i as int;
        let c = s[i];
        let e1 = adv(st, c);
        if c == '(' {
            Ok((TokenModel { kind: KindModel::LParen, span: span_between(st, e1) }, e1))
        } else if c == ')' {
            Ok((TokenModel { kind: KindModel::RParen, span: span_between(st, e1) }, e1))
        } else if c == '{' {
            Ok((TokenModel { kind: KindModel::LBrace, span: span_between(st, e1) }, e1))
        } else if c == '}' {
            Ok((TokenModel { kind: KindModel::RBrace, span: span_between(st, e1) }, e1))
        } else if c == ',' {
            Ok((TokenModel { kind: KindModel::Comma, span: span_between(st, e1) }, e1))
        } else if c == '.' {
            Ok((TokenModel { kind: KindModel::Dot, span: span_between(st, e1) }, e1))
        } else if c == ':' {
            Ok((TokenModel { kind: KindModel::Colon, span: span_between(st, e1) }, e1))
        } else if c == ';' {
            Ok((TokenModel { kind: KindModel::Semicolon, span: span_between(st, e1) }, e1))
        } else if c == '+' {
            Ok((TokenModel { kind: KindModel::Plus, span: span_between(st, e1) }, e1))
        } else if c == '-' {
            Ok((TokenModel { kind: KindModel::Minus, span: span_between(st, e1) }, e1))
        } else if c == '*' {
            Ok((TokenModel { kind: KindModel::Star, span: span_between(st, e1) }, e1))
        } else if c == '/' {
            Ok((TokenModel { kind: KindModel::Slash, span: span_between(st, e1) }, e1))
        } else if c == '%' {
            Ok((TokenModel { kind: KindModel::Percent, span: span_between(st, e1) }, e1))
        } else if c == '=' {
            if i + 1 < s.len() && s[i + 1] == '=' {
                let e2 = adv(e1, '=');
                Ok((TokenModel { kind: KindModel::EqEq, span: span_between(st, e2) }, e2))
            } else {
                Ok((TokenModel { kind: KindModel::Eq, span: span_between(st, e1) }, e1))
            }
        } else if c == '!' {
            if i + 1 < s.len() && s[i + 1] == '=' {
                let e2 = adv(e1, '=');
                Ok((TokenModel { kind: KindModel::NotEq, span: span_between(st, e2) }, e2))
            } else {
                Ok((TokenModel { kind: KindModel::Not, span: span_between(st, e1) }, e1))
            }
        } else if c == '<' {
            if i + 1 < s.len() && s[i + 1] == '=' {
                let e2 = adv(e1, '=');
                Ok((TokenModel { kind: KindModel::LtEq, span: span_between(st, e2) }, e2))
            } else {
                Ok((TokenModel { kind: KindModel::Lt, span: span_between(st, e1) }, e1))
            }
        } else if c == '>' {
            if i + 1 < s.len() && s[i + 1] == '=' {
                let e2 = adv(e1, '=');
                Ok((TokenModel { kind: KindModel::GtEq, span: span_between(st, e2) }, e2))
            } else {
                Ok((TokenModel { kind: KindModel::Gt, span: span_between(st, e1) }, e1))
            }
        } else if c == '&' {
            if i + 1 < s.len() && s[i + 1] == '&' {
                let e2 = adv(e1, '&');
                Ok((TokenModel { kind: KindModel::AndAnd, span: span_between(st, e2) }, e2))
            } else {
                Err(err_model("UnexpectedChar"@, span_at(st)))
            }
        } else if c == '|' {
            if i + 1 < s.len() && s[i + 1] == '|' {
                let e2 = adv(e1, '|');
                Ok((TokenModel { kind: KindModel::OrOr, span: span_between(st, e2) }, e2))
            } else {
                Err(err_model("UnexpectedChar"@, span_at(st)))
            }
        } else if c == '"' {
            spec_lex_string(s, st)
        } else if is_digit_char(c) {
            spec_lex_number(s, st)
        } else if is_ident_start_char(c) {
            let (t, e) = spec_lex_word(s, st);
            Ok((t, e))
        } else {
            Err(err_model("UnexpectedChar"@, span_at(st)))
        }
    }
}

/// The whole token stream from `st` on: skip blanks, stop cleanly at
/// the end of input, otherwise scan one token and continue after it.
pub open spec fn spec_lex_all(s: Seq<char>, st: Cursor) -> Result<Seq<TokenModel>, ErrModel>
    decreases s.len() - st.i,
{
    match spec_skip_ws(s, st) {
        Err(e) => Err(e),
        Ok(st1) => if st1.i >= s.len() {
            Ok(Seq::empty())
        } else {
            match spec_next_token(s, st1) {
                Err(e) => Err(e),
                Ok((t, st2)) => if st.i < st2.i && st2.i <= s.len() {
                    match spec_lex_all(s, st2) {
                        Err(e) => Err(e),
                        Ok(ts) => Ok(seq![t] + ts),
                    }
                } else {
                    // Scanning a token always consumes input, so this
                    // branch is never the one taken; it only keeps the
                    // recursion well-founded.
                    Ok(seq![t])
                },
            }
        },
    }
}

/// What lexing an input denotes.
pub open spec fn spec_lex(s: Seq<char>) -> Result<Seq<TokenModel>, ErrModel> {
    spec_lex_all(s, start_cursor())
}

// ------------------------------------------------------------------
// The executable scanner.
// ------------------------------------------------------------------

/// How many bytes the UTF-8 encoding of a character takes.
fn char_utf8_len(c: char) -> (r: usize)
    ensures
        r == char_width(c),
{
    let u = c as u32;
    if u < 0x80 {
        1
    } else if u < 0x800 {
        2
    } else if u < 0x10000 {
        3
    } else {
        4
    }
}

/// Steps the cursor over one character.
fn advance(st: Cursor, c: char) -> (r: Cursor)
    ensures
        r == adv(st, c),
{
    let w = char_utf8_len(c);
    Cursor {
        i: st.i.saturating_add(1),
        byte: st.byte.saturating_add(w),
        line: if c == '\n' {
            st.line.saturating_add(1)
        } else {
            st.line
        },
        col: if c == '\n' {
            1
        } else {
            st.col.saturating_add(1)
        },
    }
}

/// Builds the span of the text between two cursors.
fn token_span(a: Cursor, b: Cursor) -> (s: Span)
    ensures
        s == span_between(a, b),
{
    Span::new_with_line_col(a.byte, b.byte, a.line, a.col, b.line, b.col)
}

/// Builds a diagnostic pointing at one position.
fn err_at(code: &str, p: Cursor) -> (e: Error)
    ensures
        err_view(e) == err_model(code@, span_at(p)),
{
    Error::new(code, Span::new_with_line_col(p.byte, p.byte, p.line, p.col, p.line, p.col))
}

/// Whitespace test.
fn is_ws(c: char) -> (r: bool)
    ensures
        r == is_ws_char(c),
{
    c == ' ' || c == '\t' || c == '\r' || c == '\n'
}

/// Digit test.
fn is_digit(c: char) -> (r: bool)
    ensures
        r == is_digit_char(c),
{
    c >= '0' && c <= '9'
}

/// Identifier start: a letter or `_`.
fn is_ident_start(c: char) -> (r: bool)
    ensures
        r == is_ident_start_char(c),
{
    c == '_' || (c >= 'a' && c <= 'z') || (c >= 'A' && c <= 'Z')
}

/// Identifier continuation: a letter, digit or `_`.
fn is_ident_continue(c: char) -> (r: bool)
    ensures
        r == is_ident_continue_char(c),
{
    is_ident_start(c) || is_digit(c)
}

/// Skips whitespace and comments, exactly as [`spec_skip_ws`] says.
fn skip_ws_and_comments(chars: &Vec<char>, st: Cursor) -> (r: Result<Cursor, Error>)
    requires
        st.i <= chars@.len(),
    ensures
        match r {
            Ok(c2) => spec_skip_ws(chars@, st) == Ok::<Cursor, ErrModel>(c2) && st.i <= c2.i
                && c2.i <= chars@.len(),
            Err(e) => spec_skip_ws(chars@, st) == Err::<Cursor, ErrModel>(err_view(e)),
        },
{
    let ghost s = chars@;
    let n = chars.len();
    let mut cur = st;
    loop
        invariant
            n == s.len(),
            chars@ == s,
            st.i <= cur.i <= n,
            spec_skip_ws(s, st) == spec_skip_ws(s, cur),
        decreases n - cur.i,
    {
        if cur.i < n && is_ws(chars[cur.i]) {
            cur = advance(cur, chars[cur.i]);
        } else if cur.i < n && cur.i + 1 < n && chars[cur.i] == '/' && chars[cur.i + 1] == '/' {
            // A line comment: consume up to (not including) the
            // newline; the whitespace pass will take the newline.
            let mut c2 = advance(advance(cur, '/'), '/');
            proof {
                assert(adv_to(s, cur, cur.i as int) == cur);
                assert(adv_to(s, cur, cur.i + 1) == adv(cur, s[cur.i as int]));
                assert(c2 == adv_to(s, cur, cur.i + 2));
            }
            while c2.i < n && chars[c2.i] != '\n'
                invariant
                    n == s.len(),
                    chars@ == s,
                    cur.i + 2 <= c2.i <= n,
                    c2 == adv_to(s, cur, c2.i as int),
                    line_end(s, cur.i + 2) == line_end(s, c2.i as int),
                decreases n - c2.i,
            {
                let c = chars[c2.i];
                c2 = advance(c2, c);
            }
            proof {
                assert(line_end(s, c2.i as int) == c2.i as int);
                assert(c2 == adv_to(s, cur, line_end(s, cur.i + 2)));
            }
            cur = c2;
        } else if cur.i < n && cur.i + 1 < n && chars[cur.i] == '/' && chars[cur.i + 1] == '*' {
            // A block comment: scan for the closing `*/`; reaching the
            // end of input instead is a fatal diagnostic at the
            // position where the comment began.
            let mut c2 = advance(advance(cur, '/'), '*');
            proof {
                assert(adv_to(s, cur, cur.i as int) == cur);
                assert(adv_to(s, cur, cur.i + 1) == adv(cur, s[cur.i as int]));
                assert(c2 == adv_to(s, cur, cur.i + 2));
            }
            while !(c2.i < n && c2.i + 1 < n && chars[c2.i] == '*' && chars[c2.i + 1] == '/')
                && c2.i < n
                invariant
                    n == s.len(),
                    chars@ == s,
                    cur.i + 2 <= c2.i <= n,
                    c2 == adv_to(s, cur, c2.i as int),
                    block_end(s, cur.i + 2) == block_end(s, c2.i as int),
                decreases n - c2.i,
            {
                let c = chars[c2.i];
                c2 = advance(c2, c);
            }
            if c2.i < n && c2.i + 1 < n {
                proof {
                    assert(block_end(s, c2.i as int) == c2.i as int);
                }
                let e2 = advance(advance(c2, '*'), '/');
                proof {
                    let j = block_end(s, cur.i + 2);
                    assert(adv_to(s, cur, j + 1) == adv(adv_to(s, cur, j), s[j]));
                    assert(e2 == adv_to(s, cur, j + 2));
                }
                cur = e2;
            } else {
                proof {
                    assert(block_end(s, c2.i as int) == c2.i as int);
                }
                return Err(err_at("UnterminatedBlockComment", cur));
            }
        } else {
            return Ok(cur);
        }
    }
}

/// Scans an integer literal, exactly as [`spec_lex_number`] says.
fn lex_number(chars: &Vec<char>, st: Cursor) -> (r: Result<(Token, Cursor), Error>)
    requires
        st.i < chars@.len(),
        is_digit_char(chars@[st.i as int]),
    ensures
        match r {
            Ok((t, c2)) => spec_lex_number(chars@, st) == Ok::<(TokenModel, Cursor), ErrModel>(
                (token_view(t), c2),
            ) && st.i < c2.i <= chars@.len(),
            Err(e) => spec_lex_number(chars@, st) == Err::<(TokenModel, Cursor), ErrModel>(
                err_view(e),
            ),
        },
{
    let ghost s = chars@;
    let n = chars.len();
    let mut cur = st;
    while cur.i < n && is_digit(chars[cur.i])
        invariant
            n == s.len(),
            chars@ == s,
            st.i <= cur.i <= n,
            cur == adv_to(s, st, cur.i as int),
            digits_end(s, st.i as int) == digits_end(s, cur.i as int),
            forall|m: int| st.i <= m < cur.i ==> is_digit_char(s[m]),
        decreases n - cur.i,
    {
        let c = chars[cur.i];
        cur = advance(cur, c);
    }
    proof {
        assert(digits_end(s, cur.i as int) == cur.i as int);
    }
    let ghost j = cur.i as int;
    let ghost ds = s.subrange(st.i as int, j);
    // Read the run in base ten, watching for 32-bit overflow: once the
    // prefix value exceeds the representable range, every extension
    // does too, so the accumulator stops mattering beyond that point.
    let mut val: u64 = 0;
    let mut k = st.i;
    proof {
        assert(s.subrange(st.i as int, st.i as int) =~= Seq::<char>::empty());
    }
    while k < cur.i
        invariant
            n == s.len(),
            chars@ == s,
            st.i <= k <= cur.i,
            cur.i <= n,
            forall|m: int| st.i <= m < cur.i ==> is_digit_char(s[m]),
            digits_val(s.subrange(st.i as int, k as int)) <= 0x7fff_ffff ==> val == digits_val(
                s.subrange(st.i as int, k as int),
            ),
            digits_val(s.subrange(st.i as int, k as int)) > 0x7fff_ffff ==> val > 0x7fff_ffff,
            val <= 0x7fff_ffff * 10 + 9,
        decreases cur.i - k,
    {
        let c = chars[k];
        let d: u64 = (c as u32) as u64 - 48;
        proof {
            let pre = s.subrange(st.i as int, k as int);
            let post = s.subrange(st.i as int, k + 1);
            assert(post.drop_last() =~= pre);
            assert(post.last() == s[k as int]);
            lemma_digits_val_nonneg(pre);
        }
        if val <= 0x7fff_ffff {
            val = val * 10 + d;
        }
        k += 1;
    }
    proof {
        assert(s.subrange(st.i as int, cur.i as int) == ds);
    }
    if val > 0x7fff_ffff {
        Err(err_at("InvalidNumber", st))
    } else {
        let t = Token { kind: TokenKind::Number(val as i32), span: token_span(st, cur) };
        Ok((t, cur))
    }
}

/// The value of a digit run is never negative.
proof fn lemma_digits_val_nonneg(ds: Seq<char>)
    requires
        forall|m: int| 0 <= m < ds.len() ==> is_digit_char(#[trigger] ds[m]),
    ensures
        digits_val(ds) >= 0,
    decreases ds.len(),
{
    if ds.len() > 0 {
        lemma_digits_val_nonneg(ds.drop_last());
    }
}

/// Scans a string literal, exactly as [`spec_lex_string`] says.
fn lex_string(chars: &Vec<char>, st: Cursor) -> (r: Result<(Token, Cursor), Error>)
    requires
        st.i < chars@.len(),
        chars@[st.i as int] == '"',
    ensures
        match r {
            Ok((t, c2)) => spec_lex_string(chars@, st) == Ok::<(TokenModel, Cursor), ErrModel>(
                (token_view(t), c2),
            ) && st.i < c2.i <= chars@.len(),
            Err(e) => spec_lex_string(chars@, st) == Err::<(TokenModel, Cursor), ErrModel>(
                err_view(e),
            ),
        },
{
    let ghost s = chars@;
    let n = chars.len();
    let mut cur = advance(st, '"');
    let mut out: Vec<char> = Vec::new();
    loop
        invariant
            n == s.len(),
            chars@ == s,
            st.i < cur.i <= n,
            spec_lex_string(s, st) == spec_str_body(s, cur, st, out@),
        decreases n - cur.i,
    {
        if cur.i >= n {
            return Err(err_at("UnterminatedString", st));
        }
        let c = chars[cur.i];
        if c == '"' {
            let e = advance(cur, c);
            let t = Token {
                kind: TokenKind::String(chars_to_string(&out)),
                span: token_span(st, e),
            };
            return Ok((t, e));
        } else if c == '\n' {
            return Err(err_at("UnterminatedString", st));
        } else if c == '\\' {
            let c2 = advance(cur, c);
            if c2.i >= n {
                return Err(err_at("UnterminatedString", st));
            }
            let ec = chars[c2.i];
            let decoded: char = if ec == 'n' {
                '\n'
            } else if ec == 't' {
                '\t'
            } else if ec == 'r' {
                '\r'
            } else {
                ec
            };
            out.push(decoded);
            cur = advance(c2, ec);
        } else {
            out.push(c);
            cur = advance(cur, c);
        }
    }
}

/// Scans an identifier or keyword, exactly as [`spec_lex_word`] says.
fn lex_ident_or_keyword(chars: &Vec<char>, st: Cursor) -> (r: (Token, Cursor))
    requires
        st.i < chars@.len(),
        is_ident_start_char(chars@[st.i as int]),
    ensures
        spec_lex_word(chars@, st) == (token_view(r.0), r.1),
        st.i < r.1.i <= chars@.len(),
{
    let ghost s = chars@;
    let n = chars.len();
    let mut cur = st;
    let mut w: Vec<char> = Vec::new();
    proof {
        assert(s.subrange(st.i as int, st.i as int) =~= Seq::<char>::empty());
    }
    while cur.i < n && is_ident_continue(chars[cur.i])
        invariant
            n == s.len(),
            chars@ == s,
            st.i <= cur.i <= n,
            cur == adv_to(s, st, cur.i as int),
            ident_end(s, st.i as int) == ident_end(s, cur.i as int),
            w@ == s.subrange(st.i as int, cur.i as int),
        decreases n - cur.i,
    {
        let c = chars[cur.i];
        w.push(c);
        proof {
            assert(w@ =~= s.subrange(st.i as int, cur.i + 1));
        }
        cur = advance(cur, c);
    }
    proof {
        assert(ident_end(s, cur.i as int) == cur.i as int);
        assert(cur.i != st.i);
    }
    let kind = if chars_eq_str(&w, "let") {
        TokenKind::KwLet
    } else if chars_eq_str(&w, "const") {
        TokenKind::KwConst
    } else if chars_eq_str(&w, "function") {
        TokenKind::KwFunction
    } else if chars_eq_str(&w, "if") {
        TokenKind::KwIf
    } else if chars_eq_str(&w, "else") {
        TokenKind::KwElse
    } else if chars_eq_str(&w, "while") {
        TokenKind::KwWhile
    } else if chars_eq_str(&w, "return") {
        TokenKind::KwReturn
    } else if chars_eq_str(&w, "true") {
        TokenKind::KwTrue
    } else if chars_eq_str(&w, "false") {
        TokenKind::KwFalse
    } else {
        TokenKind::Ident(chars_to_string(&w))
    };
    let t = Token { kind, span: token_span(st, cur) };
    (t, cur)
}

/// Scans one token, exactly as [`spec_next_token`] says.
fn next_token(chars: &Vec<char>, st: Cursor) -> (r: Result<(Token, Cursor), Error>)
    requires
        st.i < chars@.len(),
    ensures
        match r {
            Ok((t, c2)) => spec_next_token(chars@, st) == Ok::<(TokenModel, Cursor), ErrModel>(
                (token_view(t), c2),
            ) && st.i < c2.i <= chars@.len(),
            Err(e) => spec_next_token(chars@, st) == Err::<(TokenModel, Cursor), ErrModel>(
                err_view(e),
            ),
        },
{
    let n = chars.len();
    let c = chars[st.i];
    let e1 = advance(st, c);
    match c {
        '(' => Ok((Token { kind: TokenKind::LParen, span: token_span(st, e1) }, e1)),
        ')' => Ok((Token { kind: TokenKind::RParen, span: token_span(st, e1) }, e1)),
        '{' => Ok((Token { kind: TokenKind::LBrace, span: token_span(st, e1) }, e1)),
        '}' => Ok((Token { kind: TokenKind::RBrace, span: token_span(st, e1) }, e1)),
        ',' => Ok((Token { kind: TokenKind::Comma, span: token_span(st, e1) }, e1)),
        '.' => Ok((Token { kind: TokenKind::Dot, span: token_span(st, e1) }, e1)),
        ':' => Ok((Token { kind: TokenKind::Colon, span: token_span(st, e1) }, e1)),
        ';' => Ok((Token { kind: TokenKind::Semicolon, span: token_span(st, e1) }, e1)),
        '+' => Ok((Token { kind: TokenKind::Plus, span: token_span(st, e1) }, e1)),
        '-' => Ok((Token { kind: TokenKind::Minus, span: token_span(st, e1) }, e1)),
        '*' => Ok((Token { kind: TokenKind::Star, span: token_span(st, e1) }, e1)),
        '/' => Ok((Token { kind: TokenKind::Slash, span: token_span(st, e1) }, e1)),
        '%' => Ok((Token { kind: TokenKind::Percent, span: token_span(st, e1) }, e1)),
        '=' => {
            if st.i + 1 < n && chars[st.i + 1] == '=' {
                let e2 = advance(e1, '=');
                Ok((Token { kind: TokenKind::EqEq, span: token_span(st, e2) }, e2))
            } else {
                Ok((Token { kind: TokenKind::Eq, span: token_span(st, e1) }, e1))
            }
        },
        '!' => {
            if st.i + 1 < n && chars[st.i + 1] == '=' {
                let e2 = advance(e1, '=');
                Ok((Token { kind: TokenKind::NotEq, span: token_span(st, e2) }, e2))
            } else {
                Ok((Token { kind: TokenKind::Not, span: token_span(st, e1) }, e1))
            }
        },
        '<' => {
            if st.i + 1 < n && chars[st.i + 1] == '=' {
                let e2 = advance(e1, '=');
                Ok((Token { kind: TokenKind::LtEq, span: token_span(st, e2) }, e2))
            } else {
                Ok((Token { kind: TokenKind::Lt, span: token_span(st, e1) }, e1))
            }
        },
        '>' => {
            if st.i + 1 < n && chars[st.i + 1] == '=' {
                let e2 = advance(e1, '=');
                Ok((Token { kind: TokenKind::GtEq, span: token_span(st, e2) }, e2))
            } else {
                Ok((Token { kind: TokenKind::Gt, span: token_span(st, e1) }, e1))
            }
        },
        '&' => {
            if st.i + 1 < n && chars[st.i + 1] == '&' {
                let e2 = advance(e1, '&');
                Ok((Token { kind: TokenKind::AndAnd, span: token_span(st, e2) }, e2))
            } else {
                Err(err_at("UnexpectedChar", st))
            }
        },
        '|' => {
            if st.i + 1 < n && chars[st.i + 1] == '|' {
                let e2 = advance(e1, '|');
                Ok((Token { kind: TokenKind::OrOr, span: token_span(st, e2) }, e2))
            } else {
                Err(err_at("UnexpectedChar", st))
            }
        },
        '"' => lex_string(chars, st),
        _ => {
            if is_digit(c) {
                lex_number(chars, st)
            } else if is_ident_start(c) {
                let (t, c2) = lex_ident_or_keyword(chars, st);
                Ok((t, c2))
            } else {
                Err(err_at("UnexpectedChar", st))
            }
        },
    }
}

/// Lexes a whole source text into its token stream, or fails with the
/// first lexical diagnostic: exactly what [`spec_lex`] says of the
/// text's characters.
pub fn lex(src: &str) -> (r: Result<Vec<Token>, Error>)
    ensures
        match r {
            Ok(v) => spec_lex(src@) == Ok::<Seq<TokenModel>, ErrModel>(tokens_view(v@)),
            Err(e) => spec_lex(src@) == Err::<Seq<TokenModel>, ErrModel>(err_view(e)),
        },
{
    let chars = to_chars(src);
    let ghost s = chars@;
    let n = chars.len();
    let mut out: Vec<Token> = Vec::new();
    let mut cur = Cursor { i: 0, byte: 0, line: 1, col: 1 };
    proof {
        assert(cur == start_cursor());
    }
    loop
        invariant
            n == s.len(),
            chars@ == s,
            s == src@,
            cur.i <= n,
            spec_lex(src@) == match spec_lex_all(s, cur) {
                Ok(ts) => Ok::<Seq<TokenModel>, ErrModel>(tokens_view(out@) + ts),
                Err(e) => Err::<Seq<TokenModel>, ErrModel>(e),
            },
        decreases n - cur.i,
    {
        let st0 = cur;
        let cur1 = match skip_ws_and_comments(&chars, cur) {
            Ok(c1) => c1,
            Err(e) => {
                return Err(e);
            },
        };
        if cur1.i >= n {
            proof {
                assert(spec_lex_all(s, st0) == Ok::<Seq<TokenModel>, ErrModel>(Seq::empty()));
                assert(tokens_view(out@) + Seq::<TokenModel>::empty() =~= tokens_view(out@));
            }
            return Ok(out);
        }
        let (t, cur2) = match next_token(&chars, cur1) {
            Ok(p) => p,
            Err(e) => {
                return Err(e);
            },
        };
        proof {
            let ts_rest = spec_lex_all(s, cur2);
            assert(spec_lex_all(s, st0) == match ts_rest {
                Ok(ts) => Ok::<Seq<TokenModel>, ErrModel>(seq![token_view(t)] + ts),
                Err(e) => Err::<Seq<TokenModel>, ErrModel>(e),
            });
            assert(tokens_view(out@.push(t)) =~= tokens_view(out@) + seq![token_view(t)]);
            if ts_rest is Ok {
                assert((tokens_view(out@) + seq![token_view(t)]) + ts_rest->Ok_0 =~= tokens_view(
                    out@,
                ) + (seq![token_view(t)] + ts_rest->Ok_0));
            }
        }
        out.push(t);
        cur = cur2;
    }
}

} // verus!
