use vstd::prelude::*;

use crate::text::{alphabetic, alphanumeric, ascii_digit, upper_of, white_space};
use crate::token::{LexerErrorModel, TokenModel};

verus! {

/// The offset of the first non-whitespace character at or after `i`.
pub open spec fn skip_ws(s: Seq<char>, i: nat) -> nat
    decreases s.len() - i,
{
    if i < s.len() && white_space(s[i as int]) {
        skip_ws(s, i + 1)
    } else {
        i
    }
}

/// A character that may continue an identifier or keyword.
pub open spec fn word_char(c: char) -> bool {
    alphanumeric(c) || c == '_'
}

/// A character that may start an identifier or keyword.
pub open spec fn word_start(c: char) -> bool {
    alphabetic(c) || c == '_'
}

/// The end of the maximal run of word characters from `i`.
pub open spec fn word_end(s: Seq<char>, i: nat) -> nat
    decreases s.len() - i,
{
    if i < s.len() && word_char(s[i as int]) {
        word_end(s, i + 1)
    } else {
        i
    }
}

/// The keyword whose canonical upper-case spelling is `u`, if any.
pub open spec fn keyword_of(u: Seq<char>) -> Option<TokenModel> {
    if u == "SELECT"@ {
        Some(TokenModel::Select)
    } else if u == "FROM"@ {
        Some(TokenModel::From)
    } else if u == "WHERE"@ {
        Some(TokenModel::Where)
    } else if u == "INSERT"@ {
        Some(TokenModel::Insert)
    } else if u == "DELETE"@ {
        Some(TokenModel::Delete)
    } else if u == "NOT"@ {
        Some(TokenModel::Not)
    } else if u == "AS"@ {
        Some(TokenModel::As)
    } else if u == "AND"@ {
        Some(TokenModel::And)
    } else if u == "OR"@ {
        Some(TokenModel::Or)
    } else if u == "GROUPBY"@ {
        Some(TokenModel::GroupBy)
    } else {
        None
    }
}

/// The token for word `w` whose upper-case form is `u`: a keyword, else an identifier.
pub open spec fn word_token(u: Seq<char>, w: Seq<char>) -> TokenModel {
    match keyword_of(u) {
        Some(k) => k,
        None => TokenModel::Identifier(w),
    }
}

/// Scans digits and decimal points from `i`; `dot` says one point was seen.
/// Returns the end of the scan and whether it stopped on a second point,
/// which it includes.
pub open spec fn number_scan(s: Seq<char>, i: nat, dot: bool) -> (nat, bool)
    decreases s.len() - i,
{
    if i < s.len() && ascii_digit(s[i as int]) {
        number_scan(s, i + 1, dot)
    } else if i < s.len() && s[i as int] == '.' {
        if dot {
            (i + 1, true)
        } else {
            number_scan(s, i + 1, true)
        }
    } else {
        (i, false)
    }
}

/// The numeric literal that starts at `p`, and the offset after it.
pub open spec fn number_step(s: Seq<char>, p: nat) -> (Result<TokenModel, LexerErrorModel>, nat) {
    let (e, second_point) = number_scan(s, p, false);
    let text = s.subrange(p as int, e as int);
    if second_point || (e > p && s[e - 1 as int] == '.') {
        (Err(LexerErrorModel::InvalidNumberFormat(text)), e)
    } else {
        (Ok(TokenModel::NumericLiteral(text)), e)
    }
}

/// The character that a backslash followed by `c` stands for.
pub open spec fn escape_of(c: char) -> Option<char> {
    if c == 'n' {
        Some('\n')
    } else if c == 't' {
        Some('\t')
    } else if c == '\\' || c == '"' || c == '\'' {
        Some(c)
    } else {
        None
    }
}

/// `r` with `pre` put before its text.
pub open spec fn with_prefix(
    pre: Seq<char>,
    r: Result<(Seq<char>, nat), LexerErrorModel>,
) -> Result<(Seq<char>, nat), LexerErrorModel> {
    match r {
        Ok((t, e)) => Ok((pre + t, e)),
        Err(x) => Err(x),
    }
}

/// The de-escaped content of a string literal from `i` up to its closing
/// delimiter `q`, and the offset after that delimiter.
pub open spec fn string_scan(s: Seq<char>, i: nat, q: char) -> Result<(Seq<char>, nat), LexerErrorModel>
    decreases s.len() - i,
{
    if i >= s.len() {
        Err(LexerErrorModel::UnclosedStringLiteral)
    } else if s[i as int] == q {
        Ok((Seq::empty(), i + 1))
    } else if s[i as int] == '\\' {
        if i + 1 >= s.len() {
            Err(LexerErrorModel::UnclosedStringLiteral)
        } else {
            match escape_of(s[i + 1 as int]) {
                Some(c) => with_prefix(seq![c], string_scan(s, i + 2, q)),
                None => Err(LexerErrorModel::UnknownEscapeSequence(s[i + 1 as int])),
            }
        }
    } else {
        with_prefix(seq![s[i as int]], string_scan(s, i + 1, q))
    }
}

/// The string literal whose opening delimiter is at `p`, and the offset after it.
/// On an error the offset is not meaningful.
pub open spec fn string_step(s: Seq<char>, p: nat) -> (Result<TokenModel, LexerErrorModel>, nat) {
    match string_scan(s, p + 1, s[p as int]) {
        Ok((t, e)) => (Ok(TokenModel::StringLiteral(t)), e),
        Err(x) => (Err(x), p),
    }
}

/// `r` with the tokens `pre` put before its tokens.
pub open spec fn with_tokens(
    pre: Seq<TokenModel>,
    r: Result<Seq<TokenModel>, LexerErrorModel>,
) -> Result<Seq<TokenModel>, LexerErrorModel> {
    match r {
        Ok(ts) => Ok(pre + ts),
        Err(x) => Err(x),
    }
}

/// The token that starts at `p` (after whitespace), and the offset after it.
/// On an error the offset is not meaningful.
pub open spec fn token_at(s: Seq<char>, p: nat) -> (Result<TokenModel, LexerErrorModel>, nat) {
    if p >= s.len() {
        (Ok(TokenModel::EndOfInput), p)
    } else {
        let c = s[p as int];
        let next_is_eq = p + 1 < s.len() && s[p + 1 as int] == '=';
        if c == '*' {
            (Ok(TokenModel::Asterisk), p + 1)
        } else if c == ';' {
            (Ok(TokenModel::Semicolon), p + 1)
        } else if c == ',' {
            (Ok(TokenModel::Comma), p + 1)
        } else if c == '=' {
            (Ok(TokenModel::Equals), p + 1)
        } else if c == '(' {
            (Ok(TokenModel::LeftParen), p + 1)
        } else if c == ')' {
            (Ok(TokenModel::RightParen), p + 1)
        } else if c == '<' {
            if next_is_eq {
                (Ok(TokenModel::LessThanOrEqual), p + 2)
            } else {
                (Ok(TokenModel::LessThan), p + 1)
            }
        } else if c == '>' {
            if next_is_eq {
                (Ok(TokenModel::GreaterThanOrEqual), p + 2)
            } else {
                (Ok(TokenModel::GreaterThan), p + 1)
            }
        } else if c == '!' {
            if next_is_eq {
                (Ok(TokenModel::NotEquals), p + 2)
            } else {
                (Ok(TokenModel::Illegal('!')), p + 1)
            }
        } else if c == '"' || c == '\'' {
            string_step(s, p)
        } else if ascii_digit(c) {
            number_step(s, p)
        } else if word_start(c) {
            let e = word_end(s, p + 1);
            let w = s.subrange(p as int, e as int);
            (Ok(word_token(upper_of(w), w)), e)
        } else {
            (Ok(TokenModel::Illegal(c)), p + 1)
        }
    }
}

/// One request for a token at offset `pos`: whitespace is skipped first.
pub open spec fn lex_step(s: Seq<char>, pos: nat) -> (Result<TokenModel, LexerErrorModel>, nat) {
    token_at(s, skip_ws(s, pos))
}

/// The tokens from `pos` up to and including the end marker, or the first error.
pub open spec fn lex_all(s: Seq<char>, pos: nat) -> Result<Seq<TokenModel>, LexerErrorModel>
    decreases s.len() - pos,
    via lex_all_decreases
{
    let (r, next) = lex_step(s, pos);
    match r {
        Err(x) => Err(x),
        Ok(TokenModel::EndOfInput) => Ok(seq![TokenModel::EndOfInput]),
        Ok(t) => with_tokens(seq![t], lex_all(s, next)),
    }
}

#[via_fn]
proof fn lex_all_decreases(s: Seq<char>, pos: nat) {
    if pos <= s.len() {
        lemma_step_advances(s, pos);
    }
}

pub proof fn lemma_skip_ws_bounds(s: Seq<char>, i: nat)
    requires
        i <= s.len(),
    ensures
        i <= skip_ws(s, i) <= s.len(),
        skip_ws(s, i) < s.len() ==> !white_space(s[skip_ws(s, i) as int]),
    decreases s.len() - i,
{
    if i < s.len() && white_space(s[i as int]) {
        lemma_skip_ws_bounds(s, i + 1);
    }
}

pub proof fn lemma_word_end_bounds(s: Seq<char>, i: nat)
    requires
        i <= s.len(),
    ensures
        i <= word_end(s, i) <= s.len(),
    decreases s.len() - i,
{
    if i < s.len() && word_char(s[i as int]) {
        lemma_word_end_bounds(s, i + 1);
    }
}

pub proof fn lemma_number_scan_bounds(s: Seq<char>, i: nat, dot: bool)
    requires
        i <= s.len(),
    ensures
        i <= number_scan(s, i, dot).0 <= s.len(),
    decreases s.len() - i,
{
    if i < s.len() && ascii_digit(s[i as int]) {
        lemma_number_scan_bounds(s, i + 1, dot);
    } else if i < s.len() && s[i as int] == '.' && !dot {
        lemma_number_scan_bounds(s, i + 1, true);
    }
}

pub proof fn lemma_string_scan_bounds(s: Seq<char>, i: nat, q: char)
    ensures
        string_scan(s, i, q) matches Ok((_, e)) ==> i < e <= s.len(),
    decreases s.len() - i,
{
    if i < s.len() && s[i as int] != q {
        if s[i as int] == '\\' {
            if i + 1 < s.len() {
                lemma_string_scan_bounds(s, i + 2, q);
            }
        } else {
            lemma_string_scan_bounds(s, i + 1, q);
        }
    }
}

/// Every successful step stays within the input, and every step that does not
/// end the input consumes at least one character.
pub proof fn lemma_step_advances(s: Seq<char>, pos: nat)
    requires
        pos <= s.len(),
    ensures
        pos <= lex_step(s, pos).1 <= s.len(),
        lex_step(s, pos).0 matches Ok(t) && t != TokenModel::EndOfInput ==> skip_ws(s, pos)
            < lex_step(s, pos).1,
        lex_step(s, pos).0 matches Ok(t) && t != TokenModel::EndOfInput ==> pos < lex_step(s, pos).1,
        skip_ws(s, pos) < s.len() ==> lex_step(s, pos).0 != Ok::<TokenModel, LexerErrorModel>(
            TokenModel::EndOfInput,
        ),
        lex_step(s, pos).0 == Ok::<TokenModel, LexerErrorModel>(TokenModel::EndOfInput)
            ==> lex_step(s, pos).1 == s.len(),
{
    let p = skip_ws(s, pos);
    lemma_skip_ws_bounds(s, pos);
    if p < s.len() {
        lemma_word_end_bounds(s, p + 1);
        lemma_number_scan_bounds(s, p, false);
        lemma_string_scan_bounds(s, p + 1, s[p as int]);
        assert(s[p as int] == '"' || s[p as int] == '\'' ==> token_at(s, p) == string_step(s, p));
        if ascii_digit(s[p as int]) {
            lemma_number_scan_starts(s, p);
        }
    }
}

pub proof fn lemma_with_prefix_push(
    acc: Seq<char>,
    c: char,
    r: Result<(Seq<char>, nat), LexerErrorModel>,
)
    ensures
        with_prefix(acc, with_prefix(seq![c], r)) == with_prefix(acc.push(c), r),
{
    if let Ok((t, e)) = r {
        assert(acc + (seq![c] + t) =~= acc.push(c) + t);
    }
}

pub proof fn lemma_with_tokens_push(
    pre: Seq<TokenModel>,
    t: TokenModel,
    r: Result<Seq<TokenModel>, LexerErrorModel>,
)
    ensures
        with_tokens(pre, with_tokens(seq![t], r)) == with_tokens(pre.push(t), r),
{
    if let Ok(ts) = r {
        assert(pre + (seq![t] + ts) =~= pre.push(t) + ts);
    }
}

proof fn lemma_number_scan_starts(s: Seq<char>, p: nat)
    requires
        p < s.len(),
        ascii_digit(s[p as int]),
    ensures
        number_scan(s, p, false).0 > p,
{
    lemma_number_scan_bounds(s, p + 1, false);
}

} // verus!
