use arithmetics::errors::ScanError;
use arithmetics::lexer_scanner;
use arithmetics::scanner::LexerScanner;
use arithmetics::token::{Position, Token, TokenType};

fn new_token(token_type: TokenType) -> Token {
    Token::new(token_type, None, Position::new(0))
}

#[test]
fn scanner_scan_math_expression() {
    let mut scanner = LexerScanner::new("(1 + 1) * 3 / 2".to_string());
    let position = Position::new(0);
    let tokens: Vec<Token> = vec![
        new_token(TokenType::LeftParen),
        Token::new(TokenType::Number, Some('1'.to_string()), position),
        new_token(TokenType::Plus),
        Token::new(TokenType::Number, Some('1'.to_string()), position),
        new_token(TokenType::RightParen),
        new_token(TokenType::Star),
        Token::new(TokenType::Number, Some('3'.to_string()), position),
        new_token(TokenType::Slash),
        Token::new(TokenType::Number, Some('2'.to_string()), position),
    ];
    assert_eq!(tokens, scanner.scan().unwrap());
}

#[test]
fn scanner_scan_complex_expression() {
    let mut scanner = LexerScanner::new(
        "(1 + 1) * 3 / 2 - 3 != 10001.22 && !false && \"string\" || true;".to_string(),
    );
    let position = Position::new(0);
    let tokens: Vec<Token> = vec![
        new_token(TokenType::LeftParen),
        Token::new(TokenType::Number, Some('1'.to_string()), position),
        new_token(TokenType::Plus),
        Token::new(TokenType::Number, Some('1'.to_string()), position),
        new_token(TokenType::RightParen),
        new_token(TokenType::Star),
        Token::new(TokenType::Number, Some('3'.to_string()), position),
        new_token(TokenType::Slash),
        Token::new(TokenType::Number, Some('2'.to_string()), position),
        new_token(TokenType::Minus),
        Token::new(TokenType::Number, Some('3'.to_string()), position),
        new_token(TokenType::BangEqual),
        Token::new(TokenType::Number, Some("10001.22".to_string()), position),
        new_token(TokenType::And),
        new_token(TokenType::Bang),
        Token::new(TokenType::Identifier, Some("false".to_string()), position),
        new_token(TokenType::And),
        Token::new(TokenType::String, Some("string".to_string()), position),
        new_token(TokenType::Or),
        Token::new(TokenType::Identifier, Some("true".to_string()), position),
        new_token(TokenType::Semicolon),
    ];
    let scan_tokens = scanner.scan().unwrap();
    assert_eq!(tokens, scan_tokens);
}

#[test]
fn scanner_rejects_invalid_float() {
    let mut scanner = LexerScanner::new("2. + 3".to_string());
    assert_eq!(scanner.scan(), Err(ScanError::InvalidFloat));
}

#[test]
fn scan_digit_run_is_one_number_token() {
    let tokens = arithmetics::scan("12345".to_string()).unwrap();
    assert_eq!(
        tokens,
        vec![Token::new(TokenType::Number, Some("12345".to_string()), Position::new(0))]
    );
    let tokens = arithmetics::scan("007".to_string()).unwrap();
    assert_eq!(
        tokens,
        vec![Token::new(TokenType::Number, Some("007".to_string()), Position::new(0))]
    );
}

#[test]
fn scan_single_punctuation() {
    let cases = vec![
        ("(", TokenType::LeftParen),
        (")", TokenType::RightParen),
        ("+", TokenType::Plus),
        ("-", TokenType::Minus),
        ("*", TokenType::Star),
        ("/", TokenType::Slash),
        (";", TokenType::Semicolon),
    ];
    for (text, kind) in cases {
        let tokens = arithmetics::scan(text.to_string()).unwrap();
        assert_eq!(tokens, vec![Token::new(kind, None, Position::new(0))]);
    }
}

#[test]
fn scan_two_character_operators() {
    let tokens = arithmetics::scan("!=".to_string()).unwrap();
    assert_eq!(tokens, vec![new_token(TokenType::BangEqual)]);

    let tokens = arithmetics::scan("!".to_string()).unwrap();
    assert_eq!(tokens, vec![new_token(TokenType::Bang)]);

    let tokens = arithmetics::scan("==".to_string()).unwrap();
    assert_eq!(tokens, vec![new_token(TokenType::EqualEqual)]);

    let tokens = arithmetics::scan("&&".to_string()).unwrap();
    assert_eq!(tokens, vec![new_token(TokenType::And)]);

    assert_eq!(
        arithmetics::scan("&".to_string()),
        Err(ScanError::InvalidOperator)
    );
}

#[test]
fn scan_string_literals() {
    let tokens = arithmetics::scan("\"abc\"".to_string()).unwrap();
    assert_eq!(
        tokens,
        vec![Token::new(TokenType::String, Some("abc".to_string()), Position::new(0))]
    );

    // A string still open when a `;` arrives fails.
    assert_eq!(
        arithmetics::scan("\"abc;".to_string()),
        Err(ScanError::UnterminatedString)
    );

    // A string still open at the end of the input fails too.
    assert_eq!(
        arithmetics::scan("\"abc".to_string()),
        Err(ScanError::UnterminatedString)
    );
}

#[test]
fn scan_invalid_character() {
    assert_eq!(
        arithmetics::scan("1 # 2".to_string()),
        Err(ScanError::InvalidCharacter)
    );
}

#[test]
fn scan_empty_source() {
    assert_eq!(arithmetics::scan(String::new()).unwrap(), Vec::<Token>::new());
}

#[test]
fn scan_newline_advances_position() {
    let tokens = arithmetics::scan("1\n2".to_string()).unwrap();
    assert_eq!(
        tokens,
        vec![
            Token::new(TokenType::Number, Some("1".to_string()), Position::new(0)),
            Token::new(TokenType::Number, Some("2".to_string()), Position::new(1)),
        ]
    );
}

#[test]
fn lexer_scanner_scan_math_expression() {
    let mut scanner = lexer_scanner::LexerScanner::new("(1 + 1) * 3 / 2".to_string());
    let tokens: Vec<lexer_scanner::Token> = vec![
        lexer_scanner::Token::new(lexer_scanner::TokenType::LeftParen, '('.to_string()),
        lexer_scanner::Token::new(lexer_scanner::TokenType::Number, '1'.to_string()),
        lexer_scanner::Token::new(lexer_scanner::TokenType::Plus, '+'.to_string()),
        lexer_scanner::Token::new(lexer_scanner::TokenType::Number, '1'.to_string()),
        lexer_scanner::Token::new(lexer_scanner::TokenType::RightParen, ')'.to_string()),
        lexer_scanner::Token::new(lexer_scanner::TokenType::Star, '*'.to_string()),
        lexer_scanner::Token::new(lexer_scanner::TokenType::Number, '3'.to_string()),
        lexer_scanner::Token::new(lexer_scanner::TokenType::Slash, '/'.to_string()),
        lexer_scanner::Token::new(lexer_scanner::TokenType::Number, '2'.to_string()),
    ];
    assert_eq!(tokens, scanner.scan().unwrap());
}

#[test]
fn lexer_scanner_scan_complex_expression() {
    let mut scanner =
        lexer_scanner::LexerScanner::new("(1 + 1) * 3 / 2 != 10 && !false && \"string\";".to_string());
    let tokens: Vec<lexer_scanner::Token> = vec![
        lexer_scanner::Token::new(lexer_scanner::TokenType::LeftParen, '('.to_string()),
        lexer_scanner::Token::new(lexer_scanner::TokenType::Number, '1'.to_string()),
        lexer_scanner::Token::new(lexer_scanner::TokenType::Plus, '+'.to_string()),
        lexer_scanner::Token::new(lexer_scanner::TokenType::Number, '1'.to_string()),
        lexer_scanner::Token::new(lexer_scanner::TokenType::RightParen, ')'.to_string()),
        lexer_scanner::Token::new(lexer_scanner::TokenType::Star, '*'.to_string()),
        lexer_scanner::Token::new(lexer_scanner::TokenType::Number, '3'.to_string()),
        lexer_scanner::Token::new(lexer_scanner::TokenType::Slash, '/'.to_string()),
        lexer_scanner::Token::new(lexer_scanner::TokenType::Number, '2'.to_string()),
        lexer_scanner::Token::new(lexer_scanner::TokenType::BangEqual, "!=".to_string()),
        lexer_scanner::Token::new(lexer_scanner::TokenType::Number, "10".to_string()),
        lexer_scanner::Token::new(lexer_scanner::TokenType::And, "&&".to_string()),
        lexer_scanner::Token::new(lexer_scanner::TokenType::Bang, '!'.to_string()),
        lexer_scanner::Token::new(lexer_scanner::TokenType::Identifier, "false".to_string()),
        lexer_scanner::Token::new(lexer_scanner::TokenType::And, "&&".to_string()),
        lexer_scanner::Token::new(lexer_scanner::TokenType::String, "string".to_string()),
        lexer_scanner::Token::new(lexer_scanner::TokenType::Semicolon, ';'.to_string()),
    ];
    let scan_tokens = scanner.scan().unwrap();
    assert_eq!(tokens, scan_tokens);
}

#[test]
fn lexer_scanner_rejects_invalid_float() {
    let mut scanner = lexer_scanner::LexerScanner::new("2. + 3".to_string());
    assert_eq!(scanner.scan(), Err(ScanError::InvalidFloat));
}

#[test]
fn lexer_scanner_rejects_newline() {
    let mut scanner = lexer_scanner::LexerScanner::new("1\n2".to_string());
    assert_eq!(scanner.scan(), Err(ScanError::InvalidCharacter));
}
