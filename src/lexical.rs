use vstd::prelude::*;
use crate::runtime_status::DiagnosticView;
use crate::token::{LiteralView, TokenView};
use crate::token_type::TokenType;

verus! {

pub open spec fn is_digit_char(c: char) -> bool {
    '0' <= c && c <= '9'
}

/// The character at `i`, or NUL where `i` is past the end.
pub open spec fn char_or_nul(src: Seq<char>, i: int) -> char {
    if 0 <= i < src.len() {
        src[i]
    } else {
        '\0'
    }
}

/// The first index at or after `i` that holds `stop`, or the length of
/// `src` if there is none.
pub open spec fn find_from(src: Seq<char>, i: int, stop: char) -> int
    decreases src.len() - i,
{
    if i >= src.len() {
        src.len() as int
    } else if src[i] == stop {
        i
    } else {
        find_from(src, i + 1, stop)
    }
}

/// The first index at or after `i` that holds no ASCII digit, or the length
/// of `src`.
pub open spec fn digits_end(src: Seq<char>, i: int) -> int
    decreases src.len() - i,
{
    if i >= src.len() {
        src.len() as int
    } else if is_digit_char(src[i]) {
        digits_end(src, i + 1)
    } else {
        i
    }
}

pub open spec fn count_newlines(s: Seq<char>) -> int
    decreases s.len(),
{
    if s.len() == 0 {
        0
    } else {
        count_newlines(s.drop_last()) + if s.last() == '\n' {
            1int
        } else {
            0int
        }
    }
}

/// The type of a token made of the single character `c` alone.
pub open spec fn punctuation_type(c: char) -> Option<TokenType> {
    if c == '(' {
        Some(TokenType::LEFT_PAREN)
    } else if c == ')' {
        Some(TokenType::RIGHT_PAREN)
    } else if c == '{' {
        Some(TokenType::LEFT_BRACE)
    } else if c == '}' {
        Some(TokenType::RIGHT_BRACE)
    } else if c == ',' {
        Some(TokenType::COMMA)
    } else if c == '.' {
        Some(TokenType::DOT)
    } else if c == '-' {
        Some(TokenType::MINUS)
    } else if c == '+' {
        Some(TokenType::PLUS)
    } else if c == ';' {
        Some(TokenType::SEMICOLON)
    } else if c == '*' {
        Some(TokenType::STAR)
    } else {
        None
    }
}

/// For an operator that may be followed by `=`: its type alone, and its
/// type with the `=`.
pub open spec fn operator_types(c: char) -> Option<(TokenType, TokenType)> {
    if c == '!' {
        Some((TokenType::BANG, TokenType::BANG_EQUAL))
    } else if c == '=' {
        Some((TokenType::EQUAL, TokenType::EQUAL_EQUAL))
    } else if c == '<' {
        Some((TokenType::LESS, TokenType::LESS_EQUAL))
    } else if c == '>' {
        Some((TokenType::GREATER, TokenType::GREATER_EQUAL))
    } else {
        None
    }
}

/// What one scanning step does from a token's first character: where the
/// next step starts, the line counter after it, and the token or the
/// diagnostic it produced, if any.
pub struct Step {
    pub next: int,
    pub line: int,
    pub token: Option<TokenView>,
    pub diagnostic: Option<DiagnosticView>,
}

pub open spec fn emit(
    src: Seq<char>,
    start: int,
    next: int,
    line: int,
    token_type: TokenType,
    literal: Option<LiteralView>,
) -> Step {
    Step {
        next,
        line,
        token: Some(
            TokenView { token_type, lexeme: src.subrange(start, next), literal, line },
        ),
        diagnostic: None,
    }
}

pub open spec fn skip(next: int, line: int) -> Step {
    Step { next, line, token: None, diagnostic: None }
}

pub open spec fn unexpected_message(c: char) -> Seq<char> {
    "Unexpected character: "@.push(c)
}

pub open spec fn unterminated_message() -> Seq<char> {
    "Unterminated string."@
}

/// A string literal whose opening quote is at `start`.
pub open spec fn string_step(src: Seq<char>, start: int, line: int) -> Step {
    let close = find_from(src, start + 1, '"');
    let line2 = line + count_newlines(src.subrange(start + 1, close));
    if close >= src.len() {
        Step {
            next: close,
            line: line2,
            token: None,
            diagnostic: Some(DiagnosticView { line: line2, message: unterminated_message() }),
        }
    } else {
        emit(
            src,
            start,
            close + 1,
            line2,
            TokenType::STRING,
            Some(LiteralView::Str(src.subrange(start + 1, close))),
        )
    }
}

/// The end of a number literal whose first digit is at `start`: its digits,
/// then a `.` and more digits if a digit follows the `.`.
pub open spec fn number_end(src: Seq<char>, start: int) -> int {
    let whole = digits_end(src, start + 1);
    if char_or_nul(src, whole) == '.' && is_digit_char(char_or_nul(src, whole + 1)) {
        digits_end(src, whole + 1)
    } else {
        whole
    }
}

pub open spec fn number_step(src: Seq<char>, start: int, line: int) -> Step {
    let end = number_end(src, start);
    emit(
        src,
        start,
        end,
        line,
        TokenType::NUMBER,
        Some(LiteralView::Number(src.subrange(start, end))),
    )
}

/// One scanning step from position `start`, which holds a character.
pub open spec fn step(src: Seq<char>, start: int, line: int) -> Step {
    let c = src[start];
    if punctuation_type(c) is Some {
        emit(src, start, start + 1, line, punctuation_type(c)->0, None)
    } else if operator_types(c) is Some {
        let (alone, with_equal) = operator_types(c)->0;
        if char_or_nul(src, start + 1) == '=' {
            emit(src, start, start + 2, line, with_equal, None)
        } else {
            emit(src, start, start + 1, line, alone, None)
        }
    } else if c == '/' {
        if char_or_nul(src, start + 1) == '/' {
            skip(find_from(src, start + 2, '\n'), line)
        } else {
            emit(src, start, start + 1, line, TokenType::SLASH, None)
        }
    } else if c == ' ' || c == '\r' || c == '\t' {
        skip(start + 1, line)
    } else if c == '\n' {
        skip(start + 1, line + 1)
    } else if c == '"' {
        string_step(src, start, line)
    } else if is_digit_char(c) {
        number_step(src, start, line)
    } else {
        Step {
            next: start + 1,
            line,
            token: None,
            diagnostic: Some(DiagnosticView { line, message: unexpected_message(c) }),
        }
    }
}

pub open spec fn opt_seq<A>(o: Option<A>) -> Seq<A> {
    match o {
        Some(a) => seq![a],
        None => Seq::empty(),
    }
}

/// The tokens and diagnostics of the rest of `src` from position `pos`,
/// with the line counter at `line` there, and the line counter at the end.
pub struct Scan {
    pub tokens: Seq<TokenView>,
    pub diagnostics: Seq<DiagnosticView>,
    pub line: int,
}

pub open spec fn scan_from(src: Seq<char>, pos: int, line: int) -> Scan
    decreases src.len() - pos,
    via scan_from_decreases
{
    if pos < 0 || pos >= src.len() {
        Scan { tokens: Seq::empty(), diagnostics: Seq::empty(), line }
    } else {
        let s = step(src, pos, line);
        let rest = scan_from(src, s.next, s.line);
        Scan {
            tokens: opt_seq(s.token) + rest.tokens,
            diagnostics: opt_seq(s.diagnostic) + rest.diagnostics,
            line: rest.line,
        }
    }
}

#[via_fn]
proof fn scan_from_decreases(src: Seq<char>, pos: int, line: int) {
    if 0 <= pos < src.len() {
        lemma_step_advances(src, pos, line);
    }
}

/// The end-of-input token stamped with `line`.
pub open spec fn eof_token(line: int) -> TokenView {
    TokenView { token_type: TokenType::EOF, lexeme: Seq::empty(), literal: None, line }
}

/// The result of scanning all of `src`: its tokens, closed by the
/// end-of-input token, and its diagnostics.
pub open spec fn scan(src: Seq<char>) -> Scan {
    let r = scan_from(src, 0, 1);
    Scan { tokens: r.tokens.push(eof_token(r.line)), diagnostics: r.diagnostics, line: r.line }
}

pub proof fn lemma_find_from_bounds(src: Seq<char>, i: int, stop: char)
    requires
        0 <= i <= src.len(),
    ensures
        i <= find_from(src, i, stop) <= src.len(),
    decreases src.len() - i,
{
    if i < src.len() && src[i] != stop {
        lemma_find_from_bounds(src, i + 1, stop);
    }
}

pub proof fn lemma_digits_end_bounds(src: Seq<char>, i: int)
    requires
        0 <= i <= src.len(),
    ensures
        i <= digits_end(src, i) <= src.len(),
    decreases src.len() - i,
{
    if i < src.len() && is_digit_char(src[i]) {
        lemma_digits_end_bounds(src, i + 1);
    }
}

pub proof fn lemma_count_newlines_bounds(s: Seq<char>)
    ensures
        0 <= count_newlines(s) <= s.len(),
    decreases s.len(),
{
    if s.len() > 0 {
        lemma_count_newlines_bounds(s.drop_last());
    }
}

/// A step consumes at least one character and no more than remain, and the
/// line counter grows by at most the number of characters consumed.
pub proof fn lemma_step_advances(src: Seq<char>, start: int, line: int)
    requires
        0 <= start < src.len(),
    ensures
        start < step(src, start, line).next <= src.len(),
        line <= step(src, start, line).line <= line + (step(src, start, line).next - start),
{
    let c = src[start];
    if c == '/' && char_or_nul(src, start + 1) == '/' {
        lemma_find_from_bounds(src, start + 2, '\n');
    } else if c == '"' {
        lemma_find_from_bounds(src, start + 1, '"');
        let close = find_from(src, start + 1, '"');
        lemma_count_newlines_bounds(src.subrange(start + 1, close));
    } else if is_digit_char(c) {
        lemma_digits_end_bounds(src, start + 1);
        let whole = digits_end(src, start + 1);
        if char_or_nul(src, whole) == '.' && is_digit_char(char_or_nul(src, whole + 1)) {
            lemma_digits_end_bounds(src, whole + 1);
        }
    }
}

} // verus!
