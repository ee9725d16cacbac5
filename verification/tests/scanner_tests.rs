use loxrust::scanner::Literal;
use loxrust::scanner::Scanner;
use loxrust::scanner::Token;
use loxrust::scanner::TokenType;

#[test]
fn equals_statement() {
    let source = "foobar == 2";

    let mut scanner = Scanner::new(source.to_string());
    let tokens = scanner.scan_tokens();

    let expected = vec![
        Token {
            token_type: TokenType::Literal(Literal::IDENTIFIER("foobar".to_string())),
            lexeme: "foobar".to_string(),
            line: 0,
        },
        Token { token_type: TokenType::EqualEqual, lexeme: "==".to_string(), line: 0 },
        Token {
            token_type: TokenType::Literal(Literal::NUMBER(i64::from(2))),
            lexeme: "2".to_string(),
            line: 0,
        },
        Token { token_type: TokenType::EOF, lexeme: "".to_string(), line: 0 },
    ];
    assert_eq!(&expected, tokens);
}

#[test]
fn statement_with_brackets() {
    let source = "(foobar = 2)";

    let mut scanner = Scanner::new(source.to_string());
    let tokens = scanner.scan_tokens();

    let expected = vec![
        Token { token_type: TokenType::LeftParen, lexeme: "(".to_string(), line: 0 },
        Token {
            token_type: TokenType::Literal(Literal::IDENTIFIER("foobar".to_string())),
            lexeme: "foobar".to_string(),
            line: 0,
        },
        Token { token_type: TokenType::EQUAL, lexeme: "=".to_string(), line: 0 },
        Token {
            token_type: TokenType::Literal(Literal::NUMBER(i64::from(2))),
            lexeme: "2".to_string(),
            line: 0,
        },
        Token { token_type: TokenType::RightParen, lexeme: ")".to_string(), line: 0 },
        Token { token_type: TokenType::EOF, lexeme: "".to_string(), line: 0 },
    ];
    assert_eq!(tokens, &expected);
}

#[test]
fn operator_punctuation_one_token_per_lexeme() {
    let mut scanner = Scanner::new("(){};<=== !*".to_string());
    let tokens = scanner.scan_tokens();
    let lexemes: Vec<&str> = tokens.iter().map(|t| t.lexeme.as_str()).collect();
    assert_eq!(lexemes, vec!["(", ")", "{", "}", ";", "<=", "==", "!", "*", ""]);
    assert!(tokens.iter().all(|t| t.line == 0));
    assert!(matches!(tokens.last().unwrap().token_type, TokenType::EOF));
    assert_eq!(scanner.errors.len(), 0);
}

#[test]
fn line_counter_increments_on_newlines() {
    let mut scanner = Scanner::new("foo\nbar\n+".to_string());
    let tokens = scanner.scan_tokens();
    assert_eq!(tokens.len(), 4);
    assert_eq!(tokens[0].line, 0);
    assert_eq!(tokens[1].line, 1);
    assert_eq!(tokens[2].line, 2);
    assert_eq!(tokens[3].line, 2);
}

#[test]
fn comments_produce_no_tokens() {
    let mut scanner = Scanner::new("1 // the rest is ignored ==\n2".to_string());
    let tokens = scanner.scan_tokens();
    let expected = vec![
        Token {
            token_type: TokenType::Literal(Literal::NUMBER(1)),
            lexeme: "1".to_string(),
            line: 0,
        },
        Token {
            token_type: TokenType::Literal(Literal::NUMBER(2)),
            lexeme: "2".to_string(),
            line: 1,
        },
        Token { token_type: TokenType::EOF, lexeme: "".to_string(), line: 1 },
    ];
    assert_eq!(tokens, &expected);
}

#[test]
fn string_literal_keeps_contents_and_counts_lines() {
    let mut scanner = Scanner::new("\"a\nb\"".to_string());
    let tokens = scanner.scan_tokens();
    assert_eq!(tokens.len(), 2);
    assert_eq!(
        tokens[0].token_type,
        TokenType::Literal(Literal::STRING("a\nb".to_string()))
    );
    assert_eq!(tokens[0].lexeme, "\"a\nb\"");
    assert_eq!(tokens[0].line, 1);
    assert_eq!(scanner.errors.len(), 0);
}

#[test]
fn unterminated_string_is_collected_not_fatal() {
    let mut scanner = Scanner::new("\"abc".to_string());
    let tokens = scanner.scan_tokens();
    assert_eq!(tokens.len(), 1);
    assert!(matches!(tokens[0].token_type, TokenType::EOF));
    assert_eq!(scanner.errors, vec!["Unterminated string starting on line 0".to_string()]);
}

#[test]
fn number_with_trailing_dot_is_an_error() {
    let mut scanner = Scanner::new("12.".to_string());
    let tokens = scanner.scan_tokens();
    assert_eq!(tokens.len(), 1);
    assert_eq!(
        scanner.errors,
        vec!["Number not permitted to end with '.' on line 0".to_string()]
    );
}

#[test]
fn number_with_inner_dot_is_an_error() {
    let mut scanner = Scanner::new("1.5".to_string());
    let tokens = scanner.scan_tokens();
    assert_eq!(tokens.len(), 1);
    assert_eq!(scanner.errors, vec!["Unable to parse number on line 0".to_string()]);
}

#[test]
fn number_beyond_range_is_an_error() {
    let mut scanner = Scanner::new("99999999999999999999".to_string());
    let tokens = scanner.scan_tokens();
    assert_eq!(tokens.len(), 1);
    assert_eq!(scanner.errors, vec!["Unable to parse number on line 0".to_string()]);
}

#[test]
fn number_at_range_limit_scans() {
    let mut scanner = Scanner::new("9223372036854775807".to_string());
    let tokens = scanner.scan_tokens();
    assert_eq!(
        tokens[0].token_type,
        TokenType::Literal(Literal::NUMBER(i64::MAX))
    );
    assert_eq!(scanner.errors.len(), 0);
}

#[test]
fn keywords_are_reserved_words() {
    let mut scanner = Scanner::new("var print nil true false whilex".to_string());
    let tokens = scanner.scan_tokens();
    assert!(matches!(tokens[0].token_type, TokenType::VAR));
    assert!(matches!(tokens[1].token_type, TokenType::PRINT));
    assert!(matches!(tokens[2].token_type, TokenType::NIL));
    assert!(matches!(tokens[3].token_type, TokenType::TRUE));
    assert!(matches!(tokens[4].token_type, TokenType::FALSE));
    assert_eq!(
        tokens[5].token_type,
        TokenType::Literal(Literal::IDENTIFIER("whilex".to_string()))
    );
}

#[test]
fn unrecognized_character_is_collected() {
    let mut scanner = Scanner::new("@+".to_string());
    let tokens = scanner.scan_tokens();
    assert_eq!(tokens.len(), 2);
    assert!(matches!(tokens[0].token_type, TokenType::PLUS));
    assert_eq!(scanner.errors, vec!["Unrecognized character '@' on line 0".to_string()]);
}

#[test]
fn rescanning_is_a_no_op() {
    let mut scanner = Scanner::new("1 + 2".to_string());
    let first_len = scanner.scan_tokens().len();
    let second = scanner.scan_tokens();
    assert_eq!(second.len(), first_len);
    assert_eq!(first_len, 4);
}

#[test]
fn token_kind_equality_ignores_number_payloads() {
    let a = TokenType::Literal(Literal::NUMBER(1));
    let b = TokenType::Literal(Literal::NUMBER(2));
    assert_eq!(a, b);
    let x = TokenType::Literal(Literal::IDENTIFIER("x".to_string()));
    let y = TokenType::Literal(Literal::IDENTIFIER("y".to_string()));
    let x2 = TokenType::Literal(Literal::IDENTIFIER("x".to_string()));
    assert_ne!(x, y);
    assert_eq!(x, x2);
}

#[test]
fn empty_source_scans_to_the_end_marker_alone() {
    let mut scanner = Scanner::new("".to_string());
    let tokens = scanner.scan_tokens();
    let expected = vec![Token { token_type: TokenType::EOF, lexeme: "".to_string(), line: 0 }];
    assert_eq!(tokens, &expected);
    assert_eq!(scanner.errors.len(), 0);
}

#[test]
fn identifiers_may_hold_unicode_letters() {
    let mut scanner = Scanner::new("héllo".to_string());
    let tokens = scanner.scan_tokens();
    let expected = vec![
        Token {
            token_type: TokenType::Literal(Literal::IDENTIFIER("héllo".to_string())),
            lexeme: "héllo".to_string(),
            line: 0,
        },
        Token { token_type: TokenType::EOF, lexeme: "".to_string(), line: 0 },
    ];
    assert_eq!(tokens, &expected);
    assert_eq!(scanner.errors.len(), 0);
}
