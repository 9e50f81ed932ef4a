use vstd::prelude::*;

use crate::lexspec::{
    lemma_skip_ws_bounds, lemma_step_advances, lemma_with_prefix_push, lemma_with_tokens_push,
    lex_all, lex_step, number_scan, number_step, skip_ws, string_scan, string_step, with_prefix,
    with_tokens, word_end, word_token,
};
use crate::text::{
    chars_of, is_alphabetic, is_alphanumeric, is_ascii_digit, is_white_space, push_char,
    same_text, string_of, to_upper, upper_of,
};
use crate::token::{LexerError, LexerErrorModel, Token, TokenModel, result_view};

verus! {

/// A cursor-driven scanner over one statement, producing tokens on request.
pub struct Tokenizer {
    chars: Vec<char>,
    position: usize,
}

/// The token for a scanned word, given its upper-case form: a keyword when the
/// upper-case form is one, else an identifier with the word's own casing.
pub fn classify_word(upper: &str, word: String) -> (r: Token)
    ensures
        r@ == word_token(upper@, word@),
{
    if same_text(upper, "SELECT") {
        Token::Select
    } else if same_text(upper, "FROM") {
        Token::From
    } else if same_text(upper, "WHERE") {
        Token::Where
    } else if same_text(upper, "INSERT") {
        Token::Insert
    } else if same_text(upper, "DELETE") {
        Token::Delete
    } else if same_text(upper, "NOT") {
        Token::Not
    } else if same_text(upper, "AS") {
        Token::As
    } else if same_text(upper, "AND") {
        Token::And
    } else if same_text(upper, "OR") {
        Token::Or
    } else if same_text(upper, "GROUPBY") {
        Token::GroupBy
    } else {
        Token::Identifier(word)
    }
}

impl Tokenizer {
    /// The statement being scanned.
    pub closed spec fn input(&self) -> Seq<char> {
        self.chars@
    }

    /// The current scan offset, in characters.
    pub closed spec fn pos(&self) -> nat {
        self.position as nat
    }

    pub open spec fn wf(&self) -> bool {
        self.pos() <= self.input().len()
    }

    pub fn new(input: &str) -> (r: Tokenizer)
        ensures
            r.wf(),
            r.input() == input@,
            r.pos() == 0,
    {
        Tokenizer { chars: chars_of(input), position: 0 }
    }

    /// The current scan offset, in characters.
    pub fn position(&self) -> (r: usize)
        ensures
            r == self.pos(),
    {
        self.position
    }

    /// The lookahead: the character at the current offset, if any.
    pub fn current_char(&self) -> (r: Option<char>)
        ensures
            r == (if self.pos() < self.input().len() {
                Some(self.input()[self.pos() as int])
            } else {
                None::<char>
            }),
    {
        if self.position < self.chars.len() {
            Some(self.chars[self.position])
        } else {
            None
        }
    }

    /// The character one beyond the lookahead, if any.
    pub fn peek_char(&self) -> (r: Option<char>)
        ensures
            r == (if self.pos() + 1 < self.input().len() {
                Some(self.input()[self.pos() + 1 as int])
            } else {
                None::<char>
            }),
    {
        if self.position < self.chars.len() && self.position + 1 < self.chars.len() {
            Some(self.chars[self.position + 1])
        } else {
            None
        }
    }

    /// Consumes the lookahead; at the end of the input nothing changes.
    pub fn next_char(&mut self)
        requires
            old(self).wf(),
        ensures
            final(self).wf(),
            final(self).input() == old(self).input(),
            final(self).pos() == (if old(self).pos() < old(self).input().len() {
                old(self).pos() + 1
            } else {
                old(self).pos()
            }),
    {
        if self.position < self.chars.len() {
            self.position = self.position + 1;
        }
    }

    /// Consumes the run of whitespace at the current offset.
    pub fn skip_whitespace(&mut self)
        requires
            old(self).wf(),
        ensures
            final(self).wf(),
            final(self).input() == old(self).input(),
            final(self).pos() == skip_ws(old(self).input(), old(self).pos()),
    {
        let n = self.chars.len();
        while self.position < n && is_white_space(self.chars[self.position])
            invariant
                n == self.chars@.len(),
                self.wf(),
                self.chars@ == old(self).chars@,
                skip_ws(self.input(), self.pos()) == skip_ws(old(self).input(), old(self).pos()),
            decreases n - self.position,
        {
            self.position = self.position + 1;
        }
    }

    /// Scans a keyword or identifier that starts at the lookahead, a letter or
    /// `_`: that character, then the word characters after it.
    fn identify_token(&mut self) -> (r: Token)
        requires
            old(self).wf(),
            old(self).pos() < old(self).input().len(),
        ensures
            final(self).wf(),
            final(self).input() == old(self).input(),
            final(self).pos() == word_end(old(self).input(), old(self).pos() + 1),
            old(self).pos() < final(self).pos(),
            r@ == ({
                let s = old(self).input();
                let w = s.subrange(old(self).pos() as int, final(self).pos() as int);
                word_token(upper_of(w), w)
            }),
    {
        let start = self.position;
        let n = self.chars.len();
        self.position = self.position + 1;
        while self.position < n && (is_alphanumeric(self.chars[self.position])
            || self.chars[self.position] == '_')
            invariant
                n == self.chars@.len(),
                start < self.position <= n,
                self.chars@ == old(self).chars@,
                start == old(self).pos(),
                word_end(self.input(), self.pos()) == word_end(old(self).input(), old(self).pos() + 1),
            decreases n - self.position,
        {
            self.position = self.position + 1;
        }
        let word = string_of(&self.chars, start, self.position);
        let upper = to_upper(word.as_str());
        classify_word(upper.as_str(), word)
    }

    /// Scans a numeric literal that starts at the lookahead, an ASCII digit.
    fn number(&mut self) -> (r: Result<Token, LexerError>)
        requires
            old(self).wf(),
            old(self).pos() < old(self).input().len(),
        ensures
            final(self).wf(),
            final(self).input() == old(self).input(),
            result_view(r) == number_step(old(self).input(), old(self).pos()).0,
            final(self).pos() == number_step(old(self).input(), old(self).pos()).1,
            old(self).pos() <= final(self).pos(),
    {
        let start = self.position;
        let n = self.chars.len();
        let mut has_decimal = false;
        while self.position < n
            invariant
                n == self.chars@.len(),
                start <= self.position <= n,
                self.chars@ == old(self).chars@,
                start == old(self).pos(),
                number_scan(self.input(), self.pos(), has_decimal) == number_scan(
                    old(self).input(),
                    start as nat,
                    false,
                ),
            ensures
                self.chars@ == old(self).chars@,
                start <= self.position <= n,
                number_scan(self.input(), self.pos(), has_decimal) == (self.pos(), false),
                number_scan(self.input(), self.pos(), has_decimal) == number_scan(
                    old(self).input(),
                    start as nat,
                    false,
                ),
            decreases n - self.position,
        {
            let c = self.chars[self.position];
            if is_ascii_digit(c) {
                self.position = self.position + 1;
            } else if c == '.' {
                self.position = self.position + 1;
                if has_decimal {
                    let text = string_of(&self.chars, start, self.position);
                    return Err(LexerError::InvalidNumberFormat(text));
                }
                has_decimal = true;
            } else {
                break;
            }
        }
        let text = string_of(&self.chars, start, self.position);
        if self.position > start && self.chars[self.position - 1] == '.' {
            Err(LexerError::InvalidNumberFormat(text))
        } else {
            Ok(Token::NumericLiteral(text))
        }
    }

    /// Scans a string literal whose delimiter is the lookahead.
    fn string_literal(&mut self) -> (r: Result<Token, LexerError>)
        requires
            old(self).wf(),
            old(self).pos() < old(self).input().len(),
        ensures
            final(self).wf(),
            final(self).input() == old(self).input(),
            old(self).pos() <= final(self).pos(),
            result_view(r) == string_step(old(self).input(), old(self).pos()).0,
            r is Ok ==> final(self).pos() == string_step(old(self).input(), old(self).pos()).1,
    {
        let ghost s = self.chars@;
        let ghost start = self.pos();
        let n = self.chars.len();
        let quote = self.chars[self.position];
        self.position = self.position + 1;
        let mut text = String::new();
        while self.position < n
            invariant
                n == s.len(),
                self.chars@ == s,
                s == old(self).input(),
                start == old(self).pos(),
                start < self.position <= n,
                quote == s[start as int],
                string_scan(s, start + 1, quote) == with_prefix(
                    text@,
                    string_scan(s, self.pos(), quote),
                ),
            decreases n - self.position,
        {
            let c = self.chars[self.position];
            if c == quote {
                self.position = self.position + 1;
                assert(text@ + Seq::<char>::empty() =~= text@);
                return Ok(Token::StringLiteral(text));
            } else if c == '\\' {
                if self.position + 1 >= n {
                    self.position = n;
                    return Err(LexerError::UnclosedStringLiteral);
                }
                let escaped = self.chars[self.position + 1];
                let actual = if escaped == 'n' {
                    '\n'
                } else if escaped == 't' {
                    '\t'
                } else if escaped == '\\' || escaped == '"' || escaped == '\'' {
                    escaped
                } else {
                    self.position = self.position + 1;
                    return Err(LexerError::UnknownEscapeSequence(escaped));
                };
                proof {
                    lemma_with_prefix_push(text@, actual, string_scan(s, self.pos() + 2, quote));
                }
                push_char(&mut text, actual);
                self.position = self.position + 2;
            } else {
                proof {
                    lemma_with_prefix_push(text@, c, string_scan(s, self.pos() + 1, quote));
                }
                push_char(&mut text, c);
                self.position = self.position + 1;
            }
        }
        Err(LexerError::UnclosedStringLiteral)
    }

    /// Skips whitespace, then scans and returns the next token. At the end of
    /// the input this is `EndOfInput`, on every call.
    pub fn tokenize_next_token(&mut self) -> (r: Result<Token, LexerError>)
        requires
            old(self).wf(),
        ensures
            final(self).wf(),
            final(self).input() == old(self).input(),
            old(self).pos() <= final(self).pos(),
            result_view(r) == lex_step(old(self).input(), old(self).pos()).0,
            r is Ok ==> final(self).pos() == lex_step(old(self).input(), old(self).pos()).1,
    {
        proof {
            lemma_skip_ws_bounds(self.input(), self.pos());
        }
        self.skip_whitespace();
        let c = match self.current_char() {
            Some(c) => c,
            None => return Ok(Token::EndOfInput),
        };
        let next_is_eq = match self.peek_char() {
            Some(d) => d == '=',
            None => false,
        };
        if c == '*' {
            self.next_char();
            Ok(Token::Asterisk)
        } else if c == ';' {
            self.next_char();
            Ok(Token::Semicolon)
        } else if c == ',' {
            self.next_char();
            Ok(Token::Comma)
        } else if c == '=' {
            self.next_char();
            Ok(Token::Equals)
        } else if c == '(' {
            self.next_char();
            Ok(Token::LeftParen)
        } else if c == ')' {
            self.next_char();
            Ok(Token::RightParen)
        } else if c == '<' || c == '>' || c == '!' {
            self.next_char();
            if next_is_eq {
                self.next_char();
                if c == '<' {
                    Ok(Token::LessThanOrEqual)
                } else if c == '>' {
                    Ok(Token::GreaterThanOrEqual)
                } else {
                    Ok(Token::NotEquals)
                }
            } else if c == '<' {
                Ok(Token::LessThan)
            } else if c == '>' {
                Ok(Token::GreaterThan)
            } else {
                Ok(Token::Illegal('!'))
            }
        } else if c == '"' || c == '\'' {
            self.string_literal()
        } else if is_ascii_digit(c) {
            self.number()
        } else if is_alphabetic(c) || c == '_' {
            Ok(self.identify_token())
        } else {
            self.next_char();
            Ok(Token::Illegal(c))
        }
    }

    /// Scans all remaining tokens, up to and including `EndOfInput`; the first
    /// error ends the pass and is returned instead.
    pub fn tokenize_all(&mut self) -> (r: Result<Vec<Token>, LexerError>)
        requires
            old(self).wf(),
        ensures
            final(self).wf(),
            final(self).input() == old(self).input(),
            old(self).pos() <= final(self).pos(),
            match r {
                Ok(v) => lex_all(old(self).input(), old(self).pos()) == Ok::<
                    Seq<TokenModel>,
                    LexerErrorModel,
                >(tokens_view(v@)),
                Err(e) => lex_all(old(self).input(), old(self).pos()) == Err::<
                    Seq<TokenModel>,
                    LexerErrorModel,
                >(e@),
            },
    {
        let mut tokens: Vec<Token> = Vec::new();
        loop
            invariant
                self.wf(),
                self.input() == old(self).input(),
                old(self).pos() <= self.pos(),
                lex_all(old(self).input(), old(self).pos()) == with_tokens(
                    tokens_view(tokens@),
                    lex_all(self.input(), self.pos()),
                ),
            decreases self.input().len() - self.pos(),
        {
            let ghost before = self.pos();
            let ghost pre = tokens_view(tokens@);
            proof {
                lemma_step_advances(self.input(), before);
            }
            match self.tokenize_next_token() {
                Err(e) => {
                    return Err(e);
                },
                Ok(token) => {
                    let ghost t = token@;
                    let is_end = match token {
                        Token::EndOfInput => true,
                        _ => false,
                    };
                    tokens.push(token);
                    assert(tokens_view(tokens@) =~= pre.push(t));
                    if is_end {
                        assert(pre + seq![TokenModel::EndOfInput] =~= pre.push(t));
                        return Ok(tokens);
                    }
                    proof {
                        assert(lex_all(self.input(), before) == with_tokens(
                            seq![t],
                            lex_all(self.input(), self.pos()),
                        ));
                        lemma_with_tokens_push(pre, t, lex_all(self.input(), self.pos()));
                    }
                },
            }
        }
    }
}

/// The models of a sequence of tokens.
pub open spec fn tokens_view(v: Seq<Token>) -> Seq<TokenModel> {
    v.map_values(|t: Token| t@)
}

} // verus!
