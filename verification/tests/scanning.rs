use lox::scanner::{Scanner, ScannerError};
use lox::token::{Token, TokenType};

fn scan(src: &str) -> Result<Vec<Token>, Vec<ScannerError>> {
    let mut scanner = Scanner::new(src.as_bytes());
    scanner.scan_tokens()
}

#[test]
fn eof_always_last_and_unique() {
    let tokens = scan("1 + 2 * (3)").unwrap();
    assert!(tokens.len() >= 1);
    assert_eq!(tokens.last().unwrap().ttype, TokenType::Eof);
    for t in &tokens[..tokens.len() - 1] {
        assert_ne!(t.ttype, TokenType::Eof);
    }
}

#[test]
fn keyword_vs_identifier_boundary() {
    let tokens = scan("classroom").unwrap();
    assert_eq!(tokens.len(), 2);
    assert_eq!(tokens[0].ttype, TokenType::Identifier);
    assert_eq!(tokens[0].lexeme, "classroom");
    assert_eq!(tokens[1].ttype, TokenType::Eof);
}

#[test]
fn comment_skipping() {
    let tokens = scan("// comment\n1").unwrap();
    assert_eq!(tokens.len(), 2);
    assert_eq!(tokens[0].ttype, TokenType::Number);
    assert_eq!(tokens[0].lexeme, "1");
    assert_eq!(tokens[1].ttype, TokenType::Eof);
}

#[test]
fn unterminated_string() {
    let errors = scan("\"abc").unwrap_err();
    assert_eq!(errors, vec![ScannerError::UnterminatedString { line: 1 }]);
}

#[test]
fn string_contents_and_embedded_newline() {
    let tokens = scan("\"a\nb\"").unwrap();
    assert_eq!(tokens[0].ttype, TokenType::Str);
    assert_eq!(tokens[0].lexeme, "\"a\nb\"");
    assert_eq!(tokens[0].literal, Some(String::from("a\nb")));
    assert_eq!(tokens[0].line, 2);
}

#[test]
fn string_lexeme_keeps_the_quotes() {
    let tokens = scan("\"hi\"").unwrap();
    assert_eq!(tokens[0].lexeme, "\"hi\"");
    assert_eq!(tokens[0].literal, Some(String::from("hi")));
}

#[test]
fn unterminated_string_reports_opening_line() {
    let errors = scan("\"a\nb").unwrap_err();
    assert_eq!(errors, vec![ScannerError::UnterminatedString { line: 1 }]);
}

#[test]
fn number_trailing_dot_not_consumed() {
    let tokens = scan("1.").unwrap();
    assert_eq!(tokens.len(), 3);
    assert_eq!(tokens[0].ttype, TokenType::Number);
    assert_eq!(tokens[0].lexeme, "1");
    assert_eq!(tokens[1].ttype, TokenType::Dot);
    assert_eq!(tokens[2].ttype, TokenType::Eof);
}

#[test]
fn number_with_fraction() {
    let tokens = scan("45.67").unwrap();
    assert_eq!(tokens[0].ttype, TokenType::Number);
    assert_eq!(tokens[0].lexeme, "45.67");
}

#[test]
fn one_and_two_character_operators() {
    let tokens = scan("! != = == < <= > >= / * ; , . + - ( ) { }").unwrap();
    let kinds: Vec<TokenType> = tokens.iter().map(|t| t.ttype).collect();
    assert_eq!(
        kinds,
        vec![
            TokenType::Bang,
            TokenType::BangEqual,
            TokenType::Equal,
            TokenType::EqualEqual,
            TokenType::Less,
            TokenType::LessEqual,
            TokenType::Greater,
            TokenType::GreaterEqual,
            TokenType::Slash,
            TokenType::Star,
            TokenType::Semicolon,
            TokenType::Comma,
            TokenType::Dot,
            TokenType::Plus,
            TokenType::Minus,
            TokenType::LeftParen,
            TokenType::RightParen,
            TokenType::LeftBrace,
            TokenType::RightBrace,
            TokenType::Eof,
        ]
    );
}

#[test]
fn unexpected_characters_are_all_reported() {
    let errors = scan("@\n#").unwrap_err();
    assert_eq!(
        errors,
        vec![
            ScannerError::UnexpectedCharacter { c: '@', line: 1 },
            ScannerError::UnexpectedCharacter { c: '#', line: 2 },
        ]
    );
}

#[test]
fn invalid_utf8_inside_string() {
    let mut scanner = Scanner::new(&[34u8, 0xff, 34u8]);
    let errors = scanner.scan_tokens().unwrap_err();
    assert_eq!(errors, vec![ScannerError::InvalidUtf8Char { line: 1 }]);
}

#[test]
fn non_ascii_string_contents_decode() {
    let tokens = scan("\"h\u{e9}llo\"").unwrap();
    assert_eq!(tokens[0].ttype, TokenType::Str);
    assert_eq!(tokens[0].lexeme, "\"h\u{e9}llo\"");
    assert_eq!(tokens[0].literal, Some(String::from("h\u{e9}llo")));
}

#[test]
fn empty_input_gives_only_eof() {
    let tokens = scan("").unwrap();
    assert_eq!(tokens.len(), 1);
    assert_eq!(tokens[0].ttype, TokenType::Eof);
    assert_eq!(tokens[0].line, 1);
    assert_eq!(tokens[0].lexeme, "");
}

#[test]
fn newlines_advance_line_counter() {
    let tokens = scan("\n\n1").unwrap();
    assert_eq!(tokens[0].ttype, TokenType::Number);
    assert_eq!(tokens[0].line, 3);
}

#[test]
fn all_keywords_scan_as_keywords() {
    let src = "and class else false for fun if nil or print return super this true var while";
    let tokens = scan(src).unwrap();
    let kinds: Vec<TokenType> = tokens.iter().map(|t| t.ttype).collect();
    assert_eq!(
        kinds,
        vec![
            TokenType::And,
            TokenType::Class,
            TokenType::Else,
            TokenType::False,
            TokenType::For,
            TokenType::Fun,
            TokenType::If,
            TokenType::Nil,
            TokenType::Or,
            TokenType::Print,
            TokenType::Return,
            TokenType::Super,
            TokenType::This,
            TokenType::True,
            TokenType::Var,
            TokenType::While,
            TokenType::Eof,
        ]
    );
}

#[test]
fn scanning_continues_after_an_error() {
    let mut scanner = Scanner::new("@ 1 + 2".as_bytes());
    let errors = scanner.scan_tokens().unwrap_err();
    assert_eq!(errors.len(), 1);
    assert!(matches!(errors[0], ScannerError::UnexpectedCharacter { c: '@', line: 1 }));
}
