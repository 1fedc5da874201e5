use vstd::prelude::*;
use vstd::std_specs::iter::IteratorSpec;
use crate::error::error;
use crate::lexical::{
    Scan, char_or_nul, count_newlines, digits_end, eof_token, find_from, is_digit_char,
    lemma_step_advances, number_end, opt_seq, scan, scan_from, step, string_step,
};
use crate::runtime_status::{RuntimeStatus, diagnostics_view};
use crate::token::{Literal, Token, TokenView, literal_view};
use crate::token_type::TokenType;

verus! {

pub open spec fn tokens_view(ts: Seq<Token>) -> Seq<TokenView> {
    ts.map_values(|t: Token| t@)
}

/// The mathematical value of a [`Scanner`]: its source, the tokens it has
/// produced, the position of its cursor and its line counter.
pub struct ScannerView {
    pub source: Seq<char>,
    pub tokens: Seq<TokenView>,
    pub current: int,
    pub line: int,
}

/// A single-use scanner over one source text.
pub struct Scanner {
    source: Vec<char>,
    tokens: Vec<Token>,
    start: usize,
    current: usize,
    line: i32,
}

impl View for Scanner {
    type V = ScannerView;

    closed spec fn view(&self) -> ScannerView {
        ScannerView {
            source: self.source@,
            tokens: tokens_view(self.tokens@),
            current: self.current as int,
            line: self.line as int,
        }
    }
}

impl Scanner {
    /// The cursor lies within the source, and the line counter, which grows
    /// by at most one per character consumed, fits its type.
    pub closed spec fn wf(&self) -> bool {
        &&& self.start <= self.current <= self.source.len()
        &&& self.source.len() < i32::MAX
        &&& 1 <= self.line <= 1 + self.current
    }

    /// What scanning the rest of the source, from the cursor on, yields.
    pub open spec fn pending(&self) -> Scan {
        scan_from(self@.source, self@.current, self@.line)
    }

    pub fn new(source: String) -> (s: Scanner)
        requires
            source@.len() < i32::MAX,
        ensures
            s.wf(),
            s@ == (ScannerView { source: source@, tokens: Seq::empty(), current: 0, line: 1 }),
    {
        let chars = decode(&source);
        let s = Scanner { source: chars, tokens: Vec::new(), start: 0, current: 0, line: 1 };
        assert(tokens_view(s.tokens@) =~= Seq::empty());
        s
    }

    /// Scans the rest of the source and closes the tokens with the
    /// end-of-input token; the diagnostics go to `runtime_status`.
    pub fn scan_tokens(&mut self, runtime_status: &mut RuntimeStatus) -> (r: &Vec<Token>)
        requires
            old(self).wf(),
        ensures
            final(self).wf(),
            final(self)@ == (ScannerView {
                source: old(self)@.source,
                tokens: old(self)@.tokens + old(self).pending().tokens.push(
                    eof_token(old(self).pending().line),
                ),
                current: old(self)@.source.len() as int,
                line: old(self).pending().line,
            }),
            tokens_view(r@) == final(self)@.tokens,
            old(self)@.tokens.len() == 0 && old(self)@.current == 0 && old(self)@.line == 1
                ==> final(self)@.tokens == scan(old(self)@.source).tokens,
            diagnostics_view(final(runtime_status).reports@) == diagnostics_view(
                old(runtime_status).reports@,
            ) + old(self).pending().diagnostics,
            final(runtime_status).had_error == (old(runtime_status).had_error || old(
                self,
            ).pending().diagnostics.len() > 0),
    {
        let ghost src = self.source@;
        let ghost whole = old(self).pending();
        let ghost reports0 = diagnostics_view(runtime_status.reports@);
        while !self.is_at_end()
            invariant
                self.wf(),
                self.source@ == src,
                tokens_view(self.tokens@) + self.pending().tokens == old(self)@.tokens
                    + whole.tokens,
                diagnostics_view(runtime_status.reports@) + self.pending().diagnostics
                    == reports0 + whole.diagnostics,
                self.pending().line == whole.line,
                runtime_status.reports@.len() >= reports0.len(),
                runtime_status.had_error == (old(runtime_status).had_error
                    || runtime_status.reports@.len() > reports0.len()),
            decreases self.source.len() - self.current,
        {
            let ghost before = *self;
            let ghost reports_before = diagnostics_view(runtime_status.reports@);
            self.start = self.current;
            self.scan_token(runtime_status);
            proof {
                let s = step(src, before.current as int, before.line as int);
                lemma_step_advances(src, before.current as int, before.line as int);
                let rest = scan_from(src, s.next, s.line);
                assert(before.pending().tokens == opt_seq(s.token) + rest.tokens);
                assert(tokens_view(before.tokens@) + (opt_seq(s.token) + rest.tokens)
                    =~= (tokens_view(before.tokens@) + opt_seq(s.token)) + rest.tokens);
                assert(reports_before + (opt_seq(s.diagnostic) + rest.diagnostics)
                    =~= (reports_before + opt_seq(s.diagnostic)) + rest.diagnostics);
            }
        }
        let ghost end_line = self.line as int;
        let ghost before = tokens_view(self.tokens@);
        let ghost reports = diagnostics_view(runtime_status.reports@);
        proof {
            assert(self.pending() == Scan {
                tokens: Seq::empty(),
                diagnostics: Seq::empty(),
                line: end_line,
            });
            assert(before + Seq::empty() =~= before);
            assert(reports + Seq::empty() =~= reports);
        }
        let eof = Token::new(TokenType::EOF, String::new(), None, self.line);
        self.tokens.push(eof);
        proof {
            assert(tokens_view(self.tokens@) =~= before.push(eof@));
            assert(before.push(eof@) =~= old(self)@.tokens + whole.tokens.push(
                eof_token(whole.line),
            ));
            assert(Seq::<TokenView>::empty() + whole.tokens.push(eof_token(whole.line))
                =~= whole.tokens.push(eof_token(whole.line)));
        }
        &self.tokens
    }

    /// One step: consumes one token, or whitespace, a comment or a bad
    /// character, starting at `start`.
    fn scan_token(&mut self, runtime_status: &mut RuntimeStatus)
        requires
            old(self).wf(),
            old(self).start == old(self).current < old(self).source.len(),
        ensures
            final(self).wf(),
            final(self).source@ == old(self).source@,
            final(self).start == old(self).start,
            ({
                let s = step(old(self).source@, old(self).current as int, old(self).line as int);
                &&& final(self).current as int == s.next
                &&& final(self).line as int == s.line
                &&& tokens_view(final(self).tokens@) == tokens_view(old(self).tokens@) + opt_seq(
                    s.token,
                )
                &&& diagnostics_view(final(runtime_status).reports@) == diagnostics_view(
                    old(runtime_status).reports@,
                ) + opt_seq(s.diagnostic)
                &&& final(runtime_status).had_error == (old(runtime_status).had_error
                    || s.diagnostic is Some)
            }),
    {
        let ghost src = self.source@;
        let ghost reports0 = diagnostics_view(runtime_status.reports@);
        let ghost tokens0 = tokens_view(self.tokens@);
        proof {
            lemma_step_advances(src, self.start as int, self.line as int);
        }
        let c = self.advance();
        match c {
            '(' => self.add_token(TokenType::LEFT_PAREN, None),
            ')' => self.add_token(TokenType::RIGHT_PAREN, None),
            '{' => self.add_token(TokenType::LEFT_BRACE, None),
            '}' => self.add_token(TokenType::RIGHT_BRACE, None),
            ',' => self.add_token(TokenType::COMMA, None),
            '.' => self.add_token(TokenType::DOT, None),
            '-' => self.add_token(TokenType::MINUS, None),
            '+' => self.add_token(TokenType::PLUS, None),
            ';' => self.add_token(TokenType::SEMICOLON, None),
            '*' => self.add_token(TokenType::STAR, None),
            '!' => {
                let t = if self.match_current('=') {
                    TokenType::BANG_EQUAL
                } else {
                    TokenType::BANG
                };
                self.add_token(t, None);
            },
            '=' => {
                let t = if self.match_current('=') {
                    TokenType::EQUAL_EQUAL
                } else {
                    TokenType::EQUAL
                };
                self.add_token(t, None);
            },
            '<' => {
                let t = if self.match_current('=') {
                    TokenType::LESS_EQUAL
                } else {
                    TokenType::LESS
                };
                self.add_token(t, None);
            },
            '>' => {
                let t = if self.match_current('=') {
                    TokenType::GREATER_EQUAL
                } else {
                    TokenType::GREATER
                };
                self.add_token(t, None);
            },
            '/' => {
                if self.match_current('/') {
                    while self.peek() != '\n' && !self.is_at_end()
                        invariant
                            self.wf(),
                            self.source@ == src,
                            self.start == old(self).start,
                            self.line == old(self).line,
                            self.tokens@ == old(self).tokens@,
                            self.start + 2 <= self.current,
                            find_from(src, self.current as int, '\n') == find_from(
                                src,
                                self.start + 2,
                                '\n',
                            ),
                        decreases self.source.len() - self.current,
                    {
                        self.advance();
                    }
                } else {
                    self.add_token(TokenType::SLASH, None);
                }
            },
            ' ' | '\r' | '\t' => {},
            '\n' => {
                self.line = self.line + 1;
            },
            '"' => self.string(runtime_status),
            _ => {
                if is_digit(c) {
                    self.number();
                } else {
                    let mut message = String::from_str("Unexpected character: ");
                    push_char(&mut message, c);
                    error(runtime_status, self.line, message.as_str());
                }
            },
        }
        proof {
            assert(tokens0 + Seq::empty() =~= tokens0);
            assert(reports0 + Seq::empty() =~= reports0);
        }
    }

    /// A string literal, whose opening quote has been consumed.
    fn string(&mut self, runtime_status: &mut RuntimeStatus)
        requires
            old(self).wf(),
            old(self).start + 1 == old(self).current,
            old(self).source@[old(self).start as int] == '"',
        ensures
            final(self).wf(),
            final(self).source@ == old(self).source@,
            final(self).start == old(self).start,
            ({
                let s = string_step(old(self).source@, old(self).start as int, old(self).line as int);
                &&& final(self).current as int == s.next
                &&& final(self).line as int == s.line
                &&& tokens_view(final(self).tokens@) == tokens_view(old(self).tokens@) + opt_seq(
                    s.token,
                )
                &&& diagnostics_view(final(runtime_status).reports@) == diagnostics_view(
                    old(runtime_status).reports@,
                ) + opt_seq(s.diagnostic)
                &&& final(runtime_status).had_error == (old(runtime_status).had_error
                    || s.diagnostic is Some)
            }),
    {
        let ghost src = self.source@;
        let ghost open_at = self.start as int;
        let ghost tokens0 = tokens_view(self.tokens@);
        let ghost reports0 = diagnostics_view(runtime_status.reports@);
        assert(src.subrange(open_at + 1, open_at + 1) =~= Seq::<char>::empty());
        while self.peek() != '"' && !self.is_at_end()
            invariant
                self.wf(),
                self.source@ == src,
                self.start == old(self).start,
                self.tokens@ == old(self).tokens@,
                open_at == self.start as int,
                open_at + 1 <= self.current,
                find_from(src, self.current as int, '"') == find_from(src, open_at + 1, '"'),
                self.line == old(self).line + count_newlines(
                    src.subrange(open_at + 1, self.current as int),
                ),
            decreases self.source.len() - self.current,
        {
            let ghost cur = self.current as int;
            assert(src.subrange(open_at + 1, cur + 1).drop_last() =~= src.subrange(open_at + 1, cur));
            if self.peek() == '\n' {
                self.line = self.line + 1;
            }
            self.advance();
        }
        if self.is_at_end() {
            error(runtime_status, self.line, "Unterminated string.");
            assert(tokens0 + Seq::empty() =~= tokens0);
            return;
        }
        self.advance();
        let value = substring(&self.source, self.start + 1, self.current - 1);
        self.add_token(TokenType::STRING, Some(Literal::Str(value)));
        assert(reports0 + Seq::empty() =~= reports0);
    }

    /// A number literal, whose first digit has been consumed.
    fn number(&mut self)
        requires
            old(self).wf(),
            old(self).start + 1 == old(self).current,
        ensures
            final(self).wf(),
            final(self).source@ == old(self).source@,
            final(self).start == old(self).start,
            final(self).line == old(self).line,
            final(self).current as int == number_end(old(self).source@, old(self).start as int),
            ({
                let end = number_end(old(self).source@, old(self).start as int);
                let text = old(self).source@.subrange(old(self).start as int, end);
                tokens_view(final(self).tokens@) == tokens_view(old(self).tokens@).push(
                    TokenView {
                        token_type: TokenType::NUMBER,
                        lexeme: text,
                        literal: Some(crate::token::LiteralView::Number(text)),
                        line: old(self).line as int,
                    },
                )
            }),
    {
        let ghost src = self.source@;
        let ghost first = self.start as int;
        while is_digit(self.peek())
            invariant
                self.wf(),
                self.source@ == src,
                self.start == old(self).start,
                self.line == old(self).line,
                self.tokens@ == old(self).tokens@,
                first + 1 <= self.current,
                digits_end(src, self.current as int) == digits_end(src, first + 1),
            decreases self.source.len() - self.current,
        {
            self.advance();
        }
        let ghost whole = self.current as int;
        if self.peek() == '.' && is_digit(self.peek_next()) {
            self.advance();
            while is_digit(self.peek())
                invariant
                    self.wf(),
                    self.source@ == src,
                    self.start == old(self).start,
                    self.line == old(self).line,
                    self.tokens@ == old(self).tokens@,
                    whole + 1 <= self.current,
                    digits_end(src, self.current as int) == digits_end(src, whole + 1),
                decreases self.source.len() - self.current,
            {
                self.advance();
            }
        }
        let number_string = substring(&self.source, self.start, self.current);
        self.add_token(TokenType::NUMBER, Some(Literal::Number(number_string)));
    }

    /// Consumes the character at the cursor if it is `expected`.
    fn match_current(&mut self, expected: char) -> (r: bool)
        requires
            old(self).wf(),
        ensures
            final(self).wf(),
            r == (old(self).current < old(self).source.len() && old(self).source@[old(
                self,
            ).current as int] == expected),
            final(self).current == old(self).current + if r {
                1usize
            } else {
                0usize
            },
            final(self).source@ == old(self).source@,
            final(self).tokens@ == old(self).tokens@,
            final(self).start == old(self).start,
            final(self).line == old(self).line,
    {
        if self.is_at_end() {
            return false;
        }
        if char_at(&self.source, self.current) != expected {
            return false;
        }
        self.current = self.current + 1;
        true
    }

    fn peek(&self) -> (r: char)
        requires
            self.current <= self.source.len(),
        ensures
            r == char_or_nul(self.source@, self.current as int),
    {
        if self.is_at_end() {
            '\0'
        } else {
            char_at(&self.source, self.current)
        }
    }

    fn peek_next(&self) -> (r: char)
        requires
            self.current <= self.source.len(),
            self.source.len() < i32::MAX,
        ensures
            r == char_or_nul(self.source@, self.current + 1),
    {
        let next = self.current + 1;
        if next >= self.source.len() {
            '\0'
        } else {
            char_at(&self.source, next)
        }
    }

    fn is_at_end(&self) -> (r: bool)
        ensures
            r == (self.current >= self.source.len()),
    {
        self.current >= self.source.len()
    }

    fn advance(&mut self) -> (c: char)
        requires
            old(self).current < old(self).source.len(),
        ensures
            c == old(self).source@[old(self).current as int],
            final(self).current == old(self).current + 1,
            final(self).source@ == old(self).source@,
            final(self).tokens@ == old(self).tokens@,
            final(self).start == old(self).start,
            final(self).line == old(self).line,
    {
        let character = char_at(&self.source, self.current);
        self.current = self.current + 1;
        character
    }

    /// Records a token of `token_type` whose lexeme runs from `start` to the
    /// cursor.
    fn add_token(&mut self, token_type: TokenType, literal: Option<Literal>)
        requires
            old(self).wf(),
        ensures
            final(self).wf(),
            final(self).source@ == old(self).source@,
            final(self).start == old(self).start,
            final(self).current == old(self).current,
            final(self).line == old(self).line,
            tokens_view(final(self).tokens@) == tokens_view(old(self).tokens@).push(
                TokenView {
                    token_type,
                    lexeme: old(self).source@.subrange(
                        old(self).start as int,
                        old(self).current as int,
                    ),
                    literal: literal_view(literal),
                    line: old(self).line as int,
                },
            ),
    {
        let text = substring(&self.source, self.start, self.current);
        let token = Token::new(token_type, text, literal, self.line);
        self.tokens.push(token);
        assert(tokens_view(self.tokens@) =~= tokens_view(old(self).tokens@).push(token@));
    }
}

/// Decodes `source` into its characters, once, so that each one can be
/// reached by index.
fn decode(source: &String) -> (chars: Vec<char>)
    ensures
        chars@ == source@,
{
    let mut chars: Vec<char> = Vec::new();
    for c in it: source.chars()
        invariant
            chars@ == it.seq().take(it.index() as int),
    {
        chars.push(c);
    }
    chars
}

fn char_at(value: &Vec<char>, index: usize) -> (c: char)
    requires
        index < value.len(),
    ensures
        c == value@[index as int],
{
    value[index]
}

/// The characters of `value` from `start` up to, not including, `end`.
fn substring(value: &Vec<char>, start: usize, end: usize) -> (r: String)
    requires
        start <= end <= value.len(),
    ensures
        r@ == value@.subrange(start as int, end as int),
{
    let mut r = String::new();
    let mut i: usize = start;
    while i < end
        invariant
            start <= i <= end <= value.len(),
            r@ == value@.subrange(start as int, i as int),
        decreases end - i,
    {
        assert(value@.subrange(start as int, i + 1) =~= value@.subrange(
            start as int,
            i as int,
        ).push(value@[i as int]));
        push_char(&mut r, value[i]);
        i = i + 1;
    }
    r
}

fn is_digit(c: char) -> (r: bool)
    ensures
        r == is_digit_char(c),
{
    c >= '0' && c <= '9'
}

/// Relies on `String::push`, which appends the character to the end of the
/// string.
#[verifier::external_body]
fn push_char(s: &mut String, c: char)
    ensures
        final(s)@ == old(s)@.push(c),
{
    s.push(c);
}

} // verus!
