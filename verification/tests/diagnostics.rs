use lox::lox::{Lox, LoxError};
use lox::parser::ParserError;
use lox::scanner::ScannerError;
use lox::token::{Token, TokenType};

#[test]
fn error_formats_a_plain_diagnostic() {
    let mut lox = Lox::new();
    assert!(!lox.had_error);
    let out = lox.error(42, "something went wrong");
    assert_eq!(out, "[line 42] Error: something went wrong");
    assert!(lox.had_error);
}

#[test]
fn error_formats_zero_and_multi_digit_lines() {
    let mut lox = Lox::new();
    assert_eq!(lox.error(0, "m"), "[line 0] Error: m");
    assert_eq!(lox.error(105, "m"), "[line 105] Error: m");
    assert_eq!(lox.error(9, "m"), "[line 9] Error: m");
}

#[test]
fn error_token_at_end_marker() {
    let mut lox = Lox::new();
    let token = Token::new(TokenType::Eof, "", 3);
    let out = lox.error_token(&token, "Expect ')' after expression.");
    assert_eq!(out, "[line 3] Error at end: Expect ')' after expression.");
}

#[test]
fn error_token_at_a_lexeme() {
    let mut lox = Lox::new();
    let token = Token::new(TokenType::Plus, "+", 5);
    let out = lox.error_token(&token, "Expect expression.");
    assert_eq!(out, "[line 5] Error at '+': Expect expression.");
}

#[test]
fn error_token_at_a_string_shows_its_quoted_lexeme() {
    let mut lox = Lox::new();
    let mut scanner = lox::scanner::Scanner::new("\"hi\"".as_bytes());
    let tokens = scanner.scan_tokens().unwrap();
    let out = lox.error_token(&tokens[0], "Expect expression.");
    assert_eq!(out, "[line 1] Error at '\"hi\"': Expect expression.");
}

#[test]
fn run_prints_the_parsed_expression() {
    let lox = Lox::new();
    let out = lox.run("1 + 2 * 3").unwrap();
    assert_eq!(out, "(+ 1 (* 2 3))");
}

#[test]
fn run_reports_scanner_errors() {
    let lox = Lox::new();
    match lox.run("\"abc") {
        Err(LoxError::Scanner(errors)) => {
            assert_eq!(errors, vec![ScannerError::UnterminatedString { line: 1 }]);
        }
        _ => panic!("expected scanner errors"),
    }
}

#[test]
fn run_reports_parser_errors() {
    let lox = Lox::new();
    match lox.run("(1") {
        Err(LoxError::Parser(ParserError::Custom { message, token })) => {
            assert_eq!(message, "Expect ')' after expression.");
            assert_eq!(token.ttype, TokenType::Eof);
        }
        _ => panic!("expected a parser error"),
    }
}
