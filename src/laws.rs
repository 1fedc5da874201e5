use vstd::prelude::*;
use crate::lexical::{
    eof_token, lemma_step_advances, opt_seq, scan, scan_from, step,
};
use crate::token::TokenView;
use crate::token_type::TokenType;

verus! {

/// The source text that one scanning step consumed, and the token it
/// produced, if any.
pub struct Piece {
    pub text: Seq<char>,
    pub token: Option<TokenView>,
}

/// The pieces that the steps of a scan cut the rest of `src` into, from
/// position `pos` with the line counter at `line`.
pub open spec fn pieces_from(src: Seq<char>, pos: int, line: int) -> Seq<Piece>
    decreases src.len() - pos,
    via pieces_from_decreases
{
    if pos < 0 || pos >= src.len() {
        Seq::empty()
    } else {
        let s = step(src, pos, line);
        seq![Piece { text: src.subrange(pos, s.next), token: s.token }] + pieces_from(
            src,
            s.next,
            s.line,
        )
    }
}

#[via_fn]
proof fn pieces_from_decreases(src: Seq<char>, pos: int, line: int) {
    if 0 <= pos < src.len() {
        lemma_step_advances(src, pos, line);
    }
}

pub open spec fn pieces(src: Seq<char>) -> Seq<Piece> {
    pieces_from(src, 0, 1)
}

/// The texts of `ps`, one after the other.
pub open spec fn joined(ps: Seq<Piece>) -> Seq<char>
    decreases ps.len(),
{
    if ps.len() == 0 {
        Seq::empty()
    } else {
        ps[0].text + joined(ps.drop_first())
    }
}

/// The tokens of `ps`, in order.
pub open spec fn piece_tokens(ps: Seq<Piece>) -> Seq<TokenView>
    decreases ps.len(),
{
    if ps.len() == 0 {
        Seq::empty()
    } else {
        opt_seq(ps[0].token) + piece_tokens(ps.drop_first())
    }
}

proof fn lemma_pieces_from(src: Seq<char>, pos: int, line: int)
    requires
        0 <= pos <= src.len(),
    ensures
        joined(pieces_from(src, pos, line)) == src.subrange(pos, src.len() as int),
        piece_tokens(pieces_from(src, pos, line)) == scan_from(src, pos, line).tokens,
        forall|i: int|
            0 <= i < pieces_from(src, pos, line).len() && (#[trigger] pieces_from(
                src,
                pos,
                line,
            )[i]).token is Some ==> pieces_from(src, pos, line)[i].token->0.lexeme
                == pieces_from(src, pos, line)[i].text,
        forall|i: int|
            0 <= i < scan_from(src, pos, line).tokens.len() ==> (#[trigger] scan_from(
                src,
                pos,
                line,
            ).tokens[i]).token_type != TokenType::EOF,
    decreases src.len() - pos,
{
    let ps = pieces_from(src, pos, line);
    if pos == src.len() {
        assert(src.subrange(pos, src.len() as int) =~= Seq::empty());
    } else {
        let s = step(src, pos, line);
        lemma_step_advances(src, pos, line);
        lemma_pieces_from(src, s.next, s.line);
        let rest = pieces_from(src, s.next, s.line);
        assert(ps.drop_first() =~= rest);
        assert(src.subrange(pos, src.len() as int) =~= src.subrange(pos, s.next) + src.subrange(
            s.next,
            src.len() as int,
        ));
        assert forall|i: int| 0 <= i < ps.len() && (#[trigger] ps[i]).token is Some implies ps[i].token->0.lexeme
            == ps[i].text by {
            if i > 0 {
                assert(ps[i] == rest[i - 1]);
            }
        }
        let toks = scan_from(src, pos, line).tokens;
        let rest_toks = scan_from(src, s.next, s.line).tokens;
        assert forall|i: int| 0 <= i < toks.len() implies (#[trigger] toks[i]).token_type
            != TokenType::EOF by {
            if s.token is Some && i == 0 {
            } else if s.token is Some {
                assert(toks[i] == rest_toks[i - 1]);
            } else {
                assert(toks[i] == rest_toks[i]);
            }
        }
    }
}

/// Every scan ends with exactly one end-of-input token: the last token has
/// type EOF, an empty lexeme and no literal, and no other token has type
/// EOF.
pub proof fn lemma_single_eof_at_end(src: Seq<char>)
    ensures
        scan(src).tokens.len() >= 1,
        scan(src).tokens.last() == eof_token(scan(src).line),
        scan(src).tokens.last().lexeme.len() == 0,
        scan(src).tokens.last().literal is None,
        forall|i: int|
            0 <= i < scan(src).tokens.len() - 1 ==> (#[trigger] scan(src).tokens[i]).token_type
                != TokenType::EOF,
{
    lemma_pieces_from(src, 0, 1);
    let body = scan_from(src, 0, 1).tokens;
    assert forall|i: int| 0 <= i < scan(src).tokens.len() - 1 implies (#[trigger] scan(
        src,
    ).tokens[i]).token_type != TokenType::EOF by {
        assert(scan(src).tokens[i] == body[i]);
    }
}

/// Nothing is lost: the scan cuts the source into consecutive pieces whose
/// texts, joined in order, give the source back; each piece that produced a
/// token has that token's lexeme as its text; and those tokens, in order,
/// are the tokens of the scan before the end-of-input token. The other
/// pieces are the skipped whitespace, newlines, comments, unexpected
/// characters and unterminated strings.
pub proof fn lemma_lexemes_rebuild_source(src: Seq<char>)
    ensures
        joined(pieces(src)) == src,
        piece_tokens(pieces(src)) == scan(src).tokens.drop_last(),
        forall|i: int|
            0 <= i < pieces(src).len() && (#[trigger] pieces(src)[i]).token is Some
                ==> pieces(src)[i].token->0.lexeme == pieces(src)[i].text,
{
    lemma_pieces_from(src, 0, 1);
    assert(src.subrange(0, src.len() as int) =~= src);
    assert(scan(src).tokens.drop_last() =~= scan_from(src, 0, 1).tokens);
}

/// Scanning is a function of the source alone: equal sources give equal
/// tokens and equal diagnostics.
pub proof fn lemma_scan_deterministic(first: Seq<char>, second: Seq<char>)
    requires
        first == second,
    ensures
        scan(first).tokens == scan(second).tokens,
        scan(first).diagnostics == scan(second).diagnostics,
{
}

} // verus!
