use vstd::prelude::*;

use crate::lexspec::{
    lemma_skip_ws_bounds, lemma_step_advances, lex_all, lex_step, number_scan, skip_ws, token_at,
    word_char,
};
use crate::text::white_space;
use crate::token::{LexerErrorModel, TokenModel};

verus! {

/// Once a request yields `EndOfInput`, the next request yields `EndOfInput`
/// again and leaves the offset where it was: the end is a fixed point, so every
/// later request yields `EndOfInput` too.
pub proof fn lemma_end_of_input_is_terminal(s: Seq<char>, pos: nat)
    requires
        pos <= s.len(),
        lex_step(s, pos).0 == Ok::<TokenModel, LexerErrorModel>(TokenModel::EndOfInput),
    ensures
        lex_step(s, lex_step(s, pos).1) == (
            Ok::<TokenModel, LexerErrorModel>(TokenModel::EndOfInput),
            lex_step(s, pos).1,
        ),
{
    lemma_step_advances(s, pos);
}

/// Whitespace is never a token: a request yields the same as a request made
/// after the whitespace at the offset, and no token of a pass is an illegal
/// whitespace character.
pub proof fn lemma_whitespace_is_never_a_token(s: Seq<char>, pos: nat)
    requires
        pos <= s.len(),
    ensures
        lex_step(s, pos) == lex_step(s, skip_ws(s, pos)),
        lex_step(s, pos).0 matches Ok(TokenModel::Illegal(c)) ==> !white_space(c),
        lex_all(s, pos) matches Ok(ts) ==> forall|i: int|
            0 <= i < ts.len() ==> !(#[trigger] ts[i] matches TokenModel::Illegal(c)
                && white_space(c)),
    decreases s.len() - pos,
{
    lemma_skip_ws_bounds(s, pos);
    lemma_skip_ws_idempotent(s, pos);
    lemma_step_advances(s, pos);
    let (r, next) = lex_step(s, pos);
    if r is Ok && r->Ok_0 != TokenModel::EndOfInput {
        let t = r->Ok_0;
        lemma_whitespace_is_never_a_token(s, next);
        if let Ok(ts) = lex_all(s, pos) {
            if let Ok(rest) = lex_all(s, next) {
                assert(ts == seq![t] + rest);
                assert forall|i: int| 0 <= i < ts.len() implies !(#[trigger] ts[i] matches TokenModel::Illegal(c)
                    && white_space(c)) by {
                    if i > 0 {
                        assert(ts[i] == rest[i - 1]);
                    }
                }
            }
        }
    }
}

proof fn lemma_skip_ws_idempotent(s: Seq<char>, i: nat)
    requires
        i <= s.len(),
    ensures
        skip_ws(s, skip_ws(s, i)) == skip_ws(s, i),
    decreases s.len() - i,
{
    if i < s.len() && white_space(s[i as int]) {
        lemma_skip_ws_idempotent(s, i + 1);
    }
}

/// The punctuation characters, each a token of its own.
pub open spec fn punctuation(c: char) -> bool {
    c == ',' || c == ';' || c == '(' || c == ')' || c == '*'
}

/// A text made of words, punctuation and single spaces: every whitespace
/// character is a space with no whitespace right after it, and no character is
/// a decimal point or a quote.
pub open spec fn words_and_punctuation(s: Seq<char>) -> bool {
    forall|i: int|
        #![trigger s[i]]
        0 <= i < s.len() ==> {
            &&& (s[i] == ' ' || punctuation(s[i]) || word_char(s[i]))
            &&& s[i] != '.' && s[i] != '"' && s[i] != '\''
            &&& (white_space(s[i]) ==> s[i] == ' ' && (i + 1 < s.len() ==> !white_space(
                s[i + 1],
            )))
        }
}

/// The characters that the tokens from `pos` on were scanned from, in order,
/// with one space wherever whitespace was skipped before a token or before the
/// end. Stops at the first error.
pub open spec fn spans_from(s: Seq<char>, pos: nat) -> Seq<char>
    decreases s.len() - pos,
    via spans_from_decreases
{
    let p = skip_ws(s, pos);
    let gap = if p > pos {
        seq![' ']
    } else {
        Seq::empty()
    };
    if p >= s.len() {
        gap
    } else {
        match lex_step(s, pos) {
            (Ok(_), e) => gap + s.subrange(p as int, e as int) + spans_from(s, e),
            (Err(_), _) => gap,
        }
    }
}

#[via_fn]
proof fn spans_from_decreases(s: Seq<char>, pos: nat) {
    if pos <= s.len() {
        lemma_step_advances(s, pos);
    }
}

proof fn lemma_number_scan_without_points(s: Seq<char>, i: nat, dot: bool)
    requires
        forall|k: int| 0 <= k < s.len() ==> s[k] != '.',
    ensures
        !number_scan(s, i, dot).1,
    decreases s.len() - i,
{
    if i < s.len() && s[i as int] != '.' && crate::text::ascii_digit(s[i as int]) {
        lemma_number_scan_without_points(s, i + 1, dot);
    }
}

/// For a text of words, punctuation and single spaces, the spans of its tokens,
/// joined by one space wherever whitespace was skipped, give the text back.
pub proof fn lemma_spans_rebuild_input(s: Seq<char>)
    requires
        words_and_punctuation(s),
    ensures
        spans_from(s, 0) == s,
{
    lemma_spans_rebuild_from(s, 0);
    assert(s.subrange(0, s.len() as int) =~= s);
}

proof fn lemma_spans_rebuild_from(s: Seq<char>, pos: nat)
    requires
        words_and_punctuation(s),
        pos <= s.len(),
    ensures
        spans_from(s, pos) == s.subrange(pos as int, s.len() as int),
    decreases s.len() - pos,
{
    let p = skip_ws(s, pos);
    lemma_skip_ws_bounds(s, pos);
    lemma_step_advances(s, pos);
    if pos < s.len() && white_space(s[pos as int]) {
        assert(s[pos as int] == ' ');
        assert(skip_ws(s, pos + 1) == pos + 1);
        assert(p == pos + 1);
    } else {
        assert(p == pos);
    }
    let gap = if p > pos {
        seq![' ']
    } else {
        Seq::<char>::empty()
    };
    assert(gap =~= s.subrange(pos as int, p as int));
    if p < s.len() {
        lemma_number_scan_without_points(s, p, false);
        assert(lex_step(s, pos) == token_at(s, p));
        let e = lex_step(s, pos).1;
        assert(lex_step(s, pos).0 is Ok);
        lemma_spans_rebuild_from(s, e);
        assert(s.subrange(pos as int, s.len() as int) =~= gap + s.subrange(p as int, e as int)
            + s.subrange(e as int, s.len() as int));
    }
}

} // verus!
