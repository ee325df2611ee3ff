//! Lexical and syntactic front end of a small C-like scripting language:
//! source text is scanned into a token stream and parsed, by recursive
//! descent with a fixed operator-precedence grammar, into an expression
//! tree, which a printer renders in a fully parenthesized prefix form.

pub mod ast_printer;
pub mod expr;
pub mod laws;
pub mod literal;
pub mod lox;
pub mod parser;
pub mod scanner;
pub mod token;
