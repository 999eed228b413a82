use lexer::{Lexer, Token, TokenKind};

fn expect_tokens(input: &str, expected_tokens: Vec<Token>) {
    let mut test_lexer = Lexer::new(input);
    for expected in expected_tokens {
        let actual = test_lexer.tokenize();
        assert_eq!(actual, expected);
    }
}

fn lex_all(input: &str) -> Vec<Token> {
    let mut lexer = Lexer::new(input);
    let mut tokens = Vec::new();
    loop {
        let t = lexer.next_token();
        let done = t.kind == TokenKind::EOF;
        tokens.push(t);
        if done {
            return tokens;
        }
        assert!(tokens.len() <= input.chars().count() + 1);
    }
}

fn kinds(tokens: &[Token]) -> Vec<TokenKind> {
    tokens.iter().map(|t| t.kind).collect()
}

fn tok(kind: TokenKind, literal: &str) -> Token {
    Token::new(kind, literal)
}

#[test]
fn test_lexer_creation() {
    const TEST_INPUT: &str = "let a = 1";
    let lexer = Lexer::new(TEST_INPUT);
    assert_eq!(lexer.position(), 0);
    assert_eq!(lexer.char(), Some('l'));
}

#[test]
fn test_lexing_of_symbols() {
    expect_tokens(
        "*<>-%+/@^$#~",
        vec![
            tok(TokenKind::Asterisk, "*"),
            tok(TokenKind::LessThan, "<"),
            tok(TokenKind::GreaterThan, ">"),
            tok(TokenKind::Minus, "-"),
            tok(TokenKind::Percent, "%"),
            tok(TokenKind::Plus, "+"),
            tok(TokenKind::Slash, "/"),
            tok(TokenKind::Asperand, "@"),
            tok(TokenKind::Caret, "^"),
            tok(TokenKind::Dollar, "$"),
            tok(TokenKind::Pound, "#"),
            tok(TokenKind::Tilde, "~"),
        ],
    );
}

#[test]
fn test_lexing_of_delimiters() {
    expect_tokens(",;", vec![tok(TokenKind::Comma, ","), tok(TokenKind::Semicolon, ";")]);
}

#[test]
fn test_lexing_of_keyword() {
    expect_tokens(
        "let add",
        vec![tok(TokenKind::Let, "let"), tok(TokenKind::Identifier, "add")],
    );
}

#[test]
fn test_lexing_of_a_number() {
    expect_tokens(
        "123456 654321",
        vec![tok(TokenKind::Integer, "123456"), tok(TokenKind::Integer, "654321")],
    );
}

#[test]
fn test_lexing_of_assignment() {
    expect_tokens(
        "let a = 5",
        vec![
            tok(TokenKind::Let, "let"),
            tok(TokenKind::Identifier, "a"),
            tok(TokenKind::Assignment, "="),
            tok(TokenKind::Integer, "5"),
        ],
    );
}

#[test]
fn test_lexing_of_equality() {
    expect_tokens(
        "a == 5",
        vec![
            tok(TokenKind::Identifier, "a"),
            tok(TokenKind::Equals, "=="),
            tok(TokenKind::Integer, "5"),
        ],
    );
}

#[test]
fn maximal_munch_before_keyword_lookup() {
    assert_eq!(
        lex_all("letFive"),
        vec![tok(TokenKind::Identifier, "letFive"), tok(TokenKind::EOF, "")]
    );
    assert_eq!(
        lex_all("let5_x"),
        vec![tok(TokenKind::Identifier, "let5_x"), tok(TokenKind::EOF, "")]
    );
}

#[test]
fn two_character_operators() {
    assert_eq!(lex_all("=="), vec![tok(TokenKind::Equals, "=="), tok(TokenKind::EOF, "")]);
    assert_eq!(lex_all("="), vec![tok(TokenKind::Assignment, "="), tok(TokenKind::EOF, "")]);
    assert_eq!(lex_all("!="), vec![tok(TokenKind::NotEquals, "!="), tok(TokenKind::EOF, "")]);
    assert_eq!(lex_all("!"), vec![tok(TokenKind::Bang, "!"), tok(TokenKind::EOF, "")]);
    assert_eq!(
        lex_all("=!x"),
        vec![
            tok(TokenKind::Assignment, "="),
            tok(TokenKind::Bang, "!"),
            tok(TokenKind::Identifier, "x"),
            tok(TokenKind::EOF, ""),
        ]
    );
    assert_eq!(
        lex_all("==="),
        vec![tok(TokenKind::Equals, "=="), tok(TokenKind::Assignment, "="), tok(TokenKind::EOF, "")]
    );
    assert_eq!(
        lex_all("= ="),
        vec![
            tok(TokenKind::Assignment, "="),
            tok(TokenKind::Assignment, "="),
            tok(TokenKind::EOF, ""),
        ]
    );
}

#[test]
fn let_binding_statement() {
    assert_eq!(
        lex_all("let five = 5;"),
        vec![
            tok(TokenKind::Let, "let"),
            tok(TokenKind::Identifier, "five"),
            tok(TokenKind::Assignment, "="),
            tok(TokenKind::Integer, "5"),
            tok(TokenKind::Semicolon, ";"),
            tok(TokenKind::EOF, ""),
        ]
    );
}

#[test]
fn comparison_statements() {
    assert_eq!(
        lex_all("10 == 10; 10 != 9;"),
        vec![
            tok(TokenKind::Integer, "10"),
            tok(TokenKind::Equals, "=="),
            tok(TokenKind::Integer, "10"),
            tok(TokenKind::Semicolon, ";"),
            tok(TokenKind::Integer, "10"),
            tok(TokenKind::NotEquals, "!="),
            tok(TokenKind::Integer, "9"),
            tok(TokenKind::Semicolon, ";"),
            tok(TokenKind::EOF, ""),
        ]
    );
}

#[test]
fn empty_input_gives_eof() {
    assert_eq!(lex_all(""), vec![tok(TokenKind::EOF, "")]);
    assert_eq!(lex_all(" \t\r\n "), vec![tok(TokenKind::EOF, "")]);
}

#[test]
fn illegal_character_does_not_stop_the_scan() {
    assert_eq!(
        lex_all("let x ? 5"),
        vec![
            tok(TokenKind::Let, "let"),
            tok(TokenKind::Identifier, "x"),
            tok(TokenKind::Illegal, "?"),
            tok(TokenKind::Integer, "5"),
            tok(TokenKind::EOF, ""),
        ]
    );
}

#[test]
fn one_token_per_symbol() {
    assert_eq!(
        kinds(&lex_all("~-/*&@^$#")),
        vec![
            TokenKind::Tilde,
            TokenKind::Minus,
            TokenKind::Slash,
            TokenKind::Asterisk,
            TokenKind::Ampersand,
            TokenKind::Asperand,
            TokenKind::Caret,
            TokenKind::Dollar,
            TokenKind::Pound,
            TokenKind::EOF,
        ]
    );
}

#[test]
fn eof_repeats_without_moving() {
    let mut lexer = Lexer::new("x  ");
    assert_eq!(lexer.next_token(), tok(TokenKind::Identifier, "x"));
    assert_eq!(lexer.position(), 1);
    assert_eq!(lexer.next_token(), tok(TokenKind::EOF, ""));
    assert_eq!(lexer.position(), 3);
    for _ in 0..5 {
        assert_eq!(lexer.next_token(), tok(TokenKind::EOF, ""));
        assert_eq!(lexer.position(), 3);
    }
}

#[test]
fn literals_rebuild_input_without_whitespace() {
    let input = "let add = func(a, b) {\n\treturn a + b;\r\n};  ?é 12x ";
    let joined: String = lex_all(input).iter().map(|t| t.literal.clone()).collect();
    let stripped: String =
        input.chars().filter(|c| !matches!(c, ' ' | '\t' | '\n' | '\r')).collect();
    assert_eq!(joined, stripped);
}

#[test]
fn every_keyword_and_its_longer_words() {
    let cases = [
        ("let", TokenKind::Let),
        ("func", TokenKind::Function),
        ("true", TokenKind::True),
        ("false", TokenKind::False),
        ("if", TokenKind::If),
        ("else", TokenKind::Else),
        ("return", TokenKind::Return),
    ];
    for (word, kind) in cases {
        assert_eq!(lex_all(word), vec![tok(kind, word), tok(TokenKind::EOF, "")]);
        let longer = format!("{}s", word);
        assert_eq!(
            lex_all(&longer),
            vec![tok(TokenKind::Identifier, &longer), tok(TokenKind::EOF, "")]
        );
    }
    assert_eq!(
        kinds(&lex_all("Let fn function")),
        vec![TokenKind::Identifier, TokenKind::Identifier, TokenKind::Identifier, TokenKind::EOF]
    );
}

#[test]
fn else_if_is_two_keywords() {
    assert_eq!(
        lex_all("else if"),
        vec![tok(TokenKind::Else, "else"), tok(TokenKind::If, "if"), tok(TokenKind::EOF, "")]
    );
}

#[test]
fn negative_number_is_two_tokens() {
    assert_eq!(
        lex_all("-5"),
        vec![tok(TokenKind::Minus, "-"), tok(TokenKind::Integer, "5"), tok(TokenKind::EOF, "")]
    );
}

#[test]
fn number_then_word_are_separate() {
    assert_eq!(
        lex_all("12x"),
        vec![
            tok(TokenKind::Integer, "12"),
            tok(TokenKind::Identifier, "x"),
            tok(TokenKind::EOF, ""),
        ]
    );
}

#[test]
fn underscore_starts_a_word() {
    assert_eq!(
        lex_all("_ _a1"),
        vec![
            tok(TokenKind::Identifier, "_"),
            tok(TokenKind::Identifier, "_a1"),
            tok(TokenKind::EOF, ""),
        ]
    );
}

#[test]
fn brackets_and_braces() {
    assert_eq!(
        kinds(&lex_all("(){}[]")),
        vec![
            TokenKind::LeftParen,
            TokenKind::RightParen,
            TokenKind::LeftBrace,
            TokenKind::RightBrace,
            TokenKind::LeftBracket,
            TokenKind::RightBracket,
            TokenKind::EOF,
        ]
    );
}

#[test]
fn unrecognized_characters_are_illegal() {
    assert_eq!(
        lex_all("\u{0c}é?"),
        vec![
            tok(TokenKind::Illegal, "\u{0c}"),
            tok(TokenKind::Illegal, "é"),
            tok(TokenKind::Illegal, "?"),
            tok(TokenKind::EOF, ""),
        ]
    );
}

#[test]
fn cursor_queries() {
    let mut lexer = Lexer::new("ab");
    assert_eq!(lexer.position(), 0);
    assert_eq!(lexer.char(), Some('a'));
    assert_eq!(lexer.next_char(), Some('b'));
    assert_eq!(lexer.next(), Some(0));
    assert!(lexer.has_next());
    assert_eq!(lexer.next_token(), tok(TokenKind::Identifier, "ab"));
    assert_eq!(lexer.position(), 2);
    assert_eq!(lexer.char(), None);
    assert_eq!(lexer.next_char(), None);
    assert_eq!(lexer.next(), Some(2));
    assert!(!lexer.has_next());

    let lexer = Lexer::new("");
    assert_eq!(lexer.next(), Some(0));
    assert!(!lexer.has_next());
    assert_eq!(lexer.char(), None);

    let lexer = Lexer::new("é");
    assert_eq!(lexer.char(), Some('é'));
    assert_eq!(lexer.next_char(), None);
    assert!(lexer.has_next());
}

#[test]
fn check_if_keyword_classifies_words() {
    assert_eq!(Token::check_if_keyword("return".to_string()), tok(TokenKind::Return, "return"));
    assert_eq!(Token::check_if_keyword("if".to_string()), tok(TokenKind::If, "if"));
    assert_eq!(Token::check_if_keyword("iff".to_string()), tok(TokenKind::Identifier, "iff"));
    assert_eq!(Token::check_if_keyword("".to_string()), tok(TokenKind::Identifier, ""));
}

#[test]
fn token_equality_compares_kind_and_literal() {
    assert_eq!(tok(TokenKind::Integer, "5"), tok(TokenKind::Integer, "5"));
    assert_ne!(tok(TokenKind::Integer, "5"), tok(TokenKind::Integer, "6"));
    assert_ne!(tok(TokenKind::Integer, "5"), tok(TokenKind::Identifier, "5"));
}
