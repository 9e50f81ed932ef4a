use dbms_rust_project::tokenizer::classify_word;
use dbms_rust_project::{LexerError, Token, Tokenizer};

fn ident(s: &str) -> Token {
    Token::Identifier(s.to_string())
}

fn number(s: &str) -> Token {
    Token::NumericLiteral(s.to_string())
}

fn lex(s: &str) -> Result<Vec<Token>, LexerError> {
    Tokenizer::new(s).tokenize_all()
}

#[test]
fn select_star_from_users() {
    assert_eq!(
        lex("SELECT * FROM users;"),
        Ok(vec![Token::Select, Token::Asterisk, Token::From, ident("users"), Token::Semicolon, Token::EndOfInput])
    );
}

#[test]
fn select_with_where_clause() {
    let tokens = lex("SELECT name, age FROM users WHERE age >= 18;").unwrap();
    assert_eq!(
        tokens,
        vec![
            Token::Select,
            ident("name"),
            Token::Comma,
            ident("age"),
            Token::From,
            ident("users"),
            Token::Where,
            ident("age"),
            Token::GreaterThanOrEqual,
            number("18"),
            Token::Semicolon,
            Token::EndOfInput,
        ]
    );
    match &tokens[9] {
        Token::NumericLiteral(text) => assert_eq!(text.parse::<f64>().unwrap(), 18.0),
        other => panic!("not a number: {:?}", other),
    }
}

#[test]
fn keywords_ignore_case() {
    for word in ["select", "Select", "SELECT", "sElEcT"] {
        assert_eq!(lex(word), Ok(vec![Token::Select, Token::EndOfInput]));
    }
    assert_eq!(
        lex("insert delete where from not as and or groupby"),
        Ok(vec![
            Token::Insert,
            Token::Delete,
            Token::Where,
            Token::From,
            Token::Not,
            Token::As,
            Token::And,
            Token::Or,
            Token::GroupBy,
            Token::EndOfInput,
        ])
    );
}

#[test]
fn underscore_breaks_keyword() {
    assert_eq!(lex("SeLeCt_"), Ok(vec![ident("SeLeCt_"), Token::EndOfInput]));
    assert_eq!(lex("_1abc"), Ok(vec![ident("_1abc"), Token::EndOfInput]));
}

#[test]
fn identifiers_keep_case_and_digits() {
    assert_eq!(lex("Col1 é_x"), Ok(vec![ident("Col1"), ident("é_x"), Token::EndOfInput]));
}

#[test]
fn classify_word_by_upper_case_form() {
    assert_eq!(classify_word("FROM", "from".to_string()), Token::From);
    assert_eq!(classify_word("FROMS", "froms".to_string()), ident("froms"));
    assert_eq!(classify_word("from", "from".to_string()), ident("from"));
}

#[test]
fn number_with_two_points_fails() {
    assert_eq!(lex("3.14.15"), Err(LexerError::InvalidNumberFormat("3.14.".to_string())));
}

#[test]
fn number_with_trailing_point_fails() {
    assert_eq!(lex("3."), Err(LexerError::InvalidNumberFormat("3.".to_string())));
    assert_eq!(lex("x = 7.;"), Err(LexerError::InvalidNumberFormat("7.".to_string())));
}

#[test]
fn decimal_number() {
    assert_eq!(lex("3.14"), Ok(vec![number("3.14"), Token::EndOfInput]));
    assert_eq!(lex("a-1"), Ok(vec![ident("a"), Token::Illegal('-'), number("1"), Token::EndOfInput]));
}

#[test]
fn unterminated_string_fails() {
    assert_eq!(lex("'unterminated"), Err(LexerError::UnclosedStringLiteral));
    assert_eq!(lex("'ends in backslash\\"), Err(LexerError::UnclosedStringLiteral));
    assert_eq!(lex("\"mixed'"), Err(LexerError::UnclosedStringLiteral));
}

#[test]
fn unknown_escape_fails() {
    assert_eq!(lex("'bad\\qescape'"), Err(LexerError::UnknownEscapeSequence('q')));
}

#[test]
fn string_escapes_are_resolved() {
    assert_eq!(
        lex("'a\\nb\\tc\\\\d\\\"e\\'f'"),
        Ok(vec![Token::StringLiteral("a\nb\tc\\d\"e'f".to_string()), Token::EndOfInput])
    );
    assert_eq!(
        lex("\"it's\" ''"),
        Ok(vec![
            Token::StringLiteral("it's".to_string()),
            Token::StringLiteral(String::new()),
            Token::EndOfInput,
        ])
    );
}

#[test]
fn not_equals() {
    assert_eq!(
        lex("a != b"),
        Ok(vec![ident("a"), Token::NotEquals, ident("b"), Token::EndOfInput])
    );
}

#[test]
fn comparison_operators() {
    assert_eq!(
        lex("< <= > >= = ! ( )"),
        Ok(vec![
            Token::LessThan,
            Token::LessThanOrEqual,
            Token::GreaterThan,
            Token::GreaterThanOrEqual,
            Token::Equals,
            Token::Illegal('!'),
            Token::LeftParen,
            Token::RightParen,
            Token::EndOfInput,
        ])
    );
    assert_eq!(lex("a<b"), Ok(vec![ident("a"), Token::LessThan, ident("b"), Token::EndOfInput]));
    assert_eq!(lex("=="), Ok(vec![Token::Equals, Token::Equals, Token::EndOfInput]));
}

#[test]
fn unknown_characters_are_illegal_tokens() {
    assert_eq!(lex("@ #"), Ok(vec![Token::Illegal('@'), Token::Illegal('#'), Token::EndOfInput]));
}

#[test]
fn empty_and_blank_inputs() {
    assert_eq!(lex(""), Ok(vec![Token::EndOfInput]));
    assert_eq!(lex(" \t \n  \t"), Ok(vec![Token::EndOfInput]));
}

#[test]
fn whitespace_runs_are_skipped() {
    assert_eq!(
        lex("  a\t\t ,   \t b  "),
        Ok(vec![ident("a"), Token::Comma, ident("b"), Token::EndOfInput])
    );
}

#[test]
fn end_of_input_repeats() {
    let mut t = Tokenizer::new("x ;");
    assert_eq!(t.tokenize_next_token(), Ok(ident("x")));
    assert_eq!(t.tokenize_next_token(), Ok(Token::Semicolon));
    for _ in 0..5 {
        assert_eq!(t.tokenize_next_token(), Ok(Token::EndOfInput));
    }
    assert_eq!(t.tokenize_all(), Ok(vec![Token::EndOfInput]));
}

#[test]
fn cursor_moves_forward() {
    let mut t = Tokenizer::new("ab");
    assert_eq!(t.current_char(), Some('a'));
    assert_eq!(t.peek_char(), Some('b'));
    t.next_char();
    assert_eq!(t.current_char(), Some('b'));
    assert_eq!(t.peek_char(), None);
    t.next_char();
    assert_eq!(t.current_char(), None);
    t.next_char();
    assert_eq!(t.current_char(), None);
    let mut w = Tokenizer::new(" \t x");
    w.skip_whitespace();
    assert_eq!(w.current_char(), Some('x'));
}

#[test]
fn spans_rebuild_single_spaced_input() {
    for input in ["SELECT a, b FROM t WHERE (x);", " a_1 ,b* ", "x"] {
        let chars: Vec<char> = input.chars().collect();
        let mut t = Tokenizer::new(input);
        let mut rebuilt = String::new();
        loop {
            let before = t.position();
            t.skip_whitespace();
            let start = t.position();
            if start > before {
                rebuilt.push(' ');
            }
            let token = t.tokenize_next_token().unwrap();
            if token == Token::EndOfInput {
                break;
            }
            rebuilt.extend(&chars[start..t.position()]);
        }
        assert_eq!(rebuilt, input);
    }
}
