use vstd::prelude::*;

verus! {

/// The kind of a token. Kinds carry no text of their own: the text a token
/// was scanned from, including a number's digits, a string's contents and an
/// identifier's name, lives in the token's `lexeme` field.
#[derive(Clone, Copy, Debug, PartialEq, Eq, Structural)]
pub enum TokenType {
    LeftParen,
    RightParen,
    LeftBrace,
    RightBrace,
    Comma,
    Dot,
    Minus,
    Plus,
    Semicolon,
    Slash,
    Star,
    Bang,
    BangEqual,
    Equal,
    EqualEqual,
    Greater,
    GreaterEqual,
    Less,
    LessEqual,
    Identifier,
    Str,
    Number,
    And,
    Class,
    Else,
    False,
    Fun,
    For,
    If,
    Nil,
    Or,
    Print,
    Return,
    Super,
    This,
    True,
    Var,
    While,
    Eof,
}

/// A classified lexeme: its kind, the exact source text it was scanned
/// from (for a string literal, quotes included), its literal payload where
/// the kind carries one (a string's contents, without the quotes), and the
/// line it was scanned on. Immutable once created.
#[derive(Debug)]
pub struct Token {
    pub ttype: TokenType,
    pub lexeme: String,
    pub literal: Option<String>,
    pub line: usize,
}

/// The mathematical value of a token: kind, lexeme characters, payload,
/// line.
pub struct TokenV {
    pub ttype: TokenType,
    pub lexeme: Seq<char>,
    pub literal: Option<Seq<char>>,
    pub line: int,
}

impl View for Token {
    type V = TokenV;

    open spec fn view(&self) -> TokenV {
        TokenV {
            ttype: self.ttype,
            lexeme: self.lexeme@,
            literal: match self.literal {
                Option::Some(s) => Option::Some(s@),
                Option::None => Option::None,
            },
            line: self.line as int,
        }
    }
}

/// The text payload of a string token: its contents without the quotes. A
/// token that carries no payload yields the empty text.
pub open spec fn spec_str_payload(t: TokenV) -> Seq<char> {
    match t.literal {
        Option::Some(s) => s,
        Option::None => Seq::empty(),
    }
}

impl Token {
    /// A token without a literal payload.
    pub fn new(ttype: TokenType, lexeme: &str, line: usize) -> (t: Token)
        ensures
            t@ == (TokenV { ttype, lexeme: lexeme@, literal: Option::None, line: line as int }),
    {
        Token { ttype, lexeme: lexeme.to_owned(), literal: None, line }
    }

    /// A fresh token with the same kind, text, payload and line.
    pub fn duplicate(&self) -> (t: Token)
        ensures
            t@ == self@,
    {
        let literal = (match &self.literal {
            Some(s) => Some(s.clone()),
            None => None,
        });
        Token { ttype: self.ttype, lexeme: self.lexeme.clone(), literal, line: self.line }
    }
}

} // verus!
