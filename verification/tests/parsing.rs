use lox::ast_printer::AstPrinter;
use lox::expr::{BinaryData, Expr, GroupingData, UnaryData};
use lox::literal::Literal;
use lox::parser::{Parser, ParserError};
use lox::scanner::Scanner;
use lox::token::{Token, TokenType};

fn parse_source(src: &str) -> Result<Expr, ParserError> {
    let mut scanner = Scanner::new(src.as_bytes());
    let tokens = scanner.scan_tokens().unwrap();
    let mut parser = Parser::new(tokens);
    parser.parse()
}

fn printed(src: &str) -> String {
    AstPrinter.print(&parse_source(src).unwrap())
}

#[test]
fn precedence_multiplication_binds_tighter() {
    assert_eq!(printed("1 + 2 * 3"), "(+ 1 (* 2 3))");
}

#[test]
fn subtraction_is_left_associative() {
    assert_eq!(printed("1 - 2 - 3"), "(- (- 1 2) 3)");
}

#[test]
fn unary_chains_nest_to_the_right() {
    assert_eq!(printed("--1"), "(- (- 1))");
}

#[test]
fn grouping_unary_and_binary_compose() {
    assert_eq!(printed("-123 * (45.67)"), "(* (- 123) (group 45.67))");
}

#[test]
fn missing_close_paren_fails_at_end_marker() {
    let err = parse_source("(1 + 2").unwrap_err();
    let ParserError::Custom { message, token } = err;
    assert_eq!(message, "Expect ')' after expression.");
    assert_eq!(token.ttype, TokenType::Eof);
}

#[test]
fn stray_operator_expects_expression() {
    let err = parse_source("+").unwrap_err();
    let ParserError::Custom { message, token } = err;
    assert_eq!(message, "Expect expression.");
    assert_eq!(token.ttype, TokenType::Plus);
    assert_eq!(token.lexeme, "+");
}

#[test]
fn equality_above_comparison() {
    assert_eq!(printed("1 < 2 == true"), "(== (< 1 2) true)");
}

#[test]
fn literal_keywords_parse() {
    assert_eq!(printed("true"), "true");
    assert_eq!(printed("false"), "false");
    assert_eq!(printed("nil"), "nil");
}

#[test]
fn string_literal_prints_raw_contents() {
    assert_eq!(printed("\"hi\""), "hi");
}

#[test]
fn bang_is_a_unary_operator() {
    assert_eq!(printed("!true"), "(! true)");
}

#[test]
fn parse_takes_one_expression_and_stops() {
    assert_eq!(printed("1 2"), "1");
}

#[test]
fn grouped_expression_prints_group() {
    assert_eq!(printed("(1)"), "(group 1)");
}

#[test]
fn number_literal_round_trips_through_printing() {
    let first = parse_source("123").unwrap();
    let text = AstPrinter.print(&first);
    assert_eq!(text, "123");
    let again = parse_source(&text).unwrap();
    assert!(matches!(&again, Expr::Literal(Literal::Number(n)) if n == "123"));
    assert_eq!(AstPrinter.print(&again), text);
}

#[test]
fn keyword_literal_round_trips_through_printing() {
    let first = parse_source("true").unwrap();
    let text = AstPrinter.print(&first);
    let again = parse_source(&text).unwrap();
    assert!(matches!(again, Expr::Literal(Literal::Bool(true))));
}

#[test]
fn printer_renders_hand_built_tree() {
    let unary = Expr::Unary(UnaryData {
        operator: Token::new(TokenType::Minus, "-", 1),
        right: Box::new(Expr::Literal(Literal::Number(String::from("123")))),
    });
    let group = Expr::Grouping(GroupingData {
        expression: Box::new(Expr::Literal(Literal::Bool(false))),
    });
    let binary = Expr::Binary(BinaryData {
        left: Box::new(unary),
        operator: Token::new(TokenType::Star, "*", 1),
        right: Box::new(group),
    });
    assert_eq!(AstPrinter.print(&binary), "(* (- 123) (group false))");
}

#[test]
fn literal_render_gives_canonical_text() {
    assert_eq!(Literal::Nil.render(), "nil");
    assert_eq!(Literal::Bool(true).render(), "true");
    assert_eq!(Literal::Bool(false).render(), "false");
    assert_eq!(Literal::Number(String::from("4.5")).render(), "4.5");
    assert_eq!(Literal::Str(String::from("abc")).render(), "abc");
}

#[test]
fn synchronize_skips_past_a_semicolon() {
    let mut scanner = Scanner::new("1 2; 3".as_bytes());
    let tokens = scanner.scan_tokens().unwrap();
    let mut parser = Parser::new(tokens);
    parser.synchronize();
    let expr = parser.parse().unwrap();
    assert_eq!(AstPrinter.print(&expr), "3");
}

#[test]
fn synchronize_at_end_marker_stays_put() {
    let mut scanner = Scanner::new("".as_bytes());
    let tokens = scanner.scan_tokens().unwrap();
    let mut parser = Parser::new(tokens);
    parser.synchronize();
    assert_eq!(parser.current, 0);
    assert_eq!(parser.tokens[0].ttype, TokenType::Eof);
}

#[test]
fn synchronize_stops_before_a_statement_keyword() {
    let mut scanner = Scanner::new("1 2 var x".as_bytes());
    let tokens = scanner.scan_tokens().unwrap();
    let mut parser = Parser::new(tokens);
    parser.synchronize();
    assert_eq!(parser.tokens[parser.current].ttype, TokenType::Var);
}

#[test]
fn error_token_carries_line() {
    let err = parse_source("1 +\n+").unwrap_err();
    let ParserError::Custom { message: _, token } = err;
    assert_eq!(token.line, 2);
    assert_eq!(token.ttype, TokenType::Plus);
}
