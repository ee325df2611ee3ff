use crate::ast_printer::{spec_print, AstPrinter};
use crate::parser::{p_expression, Parser, ParserError};
use crate::scanner::{scan_spec, Scanner, ScannerError};
use crate::token::{Token, TokenType};
use vstd::prelude::*;
use vstd::string::{StringExecFns, StringSliceAdditionalSpecFns};

verus! {

/// What a run failed with: the whole set of lexical errors, or the first
/// syntax error.
#[derive(Debug)]
pub enum LoxError {
    Scanner(Vec<ScannerError>),
    Parser(ParserError),
}

/// One digit as text.
pub open spec fn digit_seq(d: int) -> Seq<char> {
    if d == 0 {
        "0"@
    } else if d == 1 {
        "1"@
    } else if d == 2 {
        "2"@
    } else if d == 3 {
        "3"@
    } else if d == 4 {
        "4"@
    } else if d == 5 {
        "5"@
    } else if d == 6 {
        "6"@
    } else if d == 7 {
        "7"@
    } else if d == 8 {
        "8"@
    } else {
        "9"@
    }
}

/// The decimal text of a number, most significant digit first.
pub open spec fn spec_digits(n: int) -> Seq<char>
    decreases n,
    when n >= 0
{
    if n < 10 {
        digit_seq(n)
    } else {
        spec_digits(n / 10) + digit_seq(n % 10)
    }
}

/// Writes the decimal text of `n` onto the end of `out`.
fn append_digits(out: &mut String, n: usize)
    ensures
        final(out)@ == old(out)@ + spec_digits(n as int),
    decreases n,
{
    if n >= 10 {
        append_digits(out, n / 10);
    }
    let d = n % 10;
    if d == 0 {
        out.append("0");
    } else if d == 1 {
        out.append("1");
    } else if d == 2 {
        out.append("2");
    } else if d == 3 {
        out.append("3");
    } else if d == 4 {
        out.append("4");
    } else if d == 5 {
        out.append("5");
    } else if d == 6 {
        out.append("6");
    } else if d == 7 {
        out.append("7");
    } else if d == 8 {
        out.append("8");
    } else {
        out.append("9");
    }
    proof {
        assert(out@ =~= old(out)@ + spec_digits(n as int));
    }
}

/// One diagnostic line: `[line {line}] Error{location}: {message}`.
pub open spec fn spec_report(line: int, location: Seq<char>, message: Seq<char>) -> Seq<char> {
    "[line "@ + spec_digits(line) + "] Error"@ + location + ": "@ + message
}

/// Drives one run of the front end and remembers whether it reported an
/// error. Diagnostics come back as strings; what prints them, and when a
/// whole run failed, lives with the caller.
pub struct Lox {
    pub had_error: bool,
}

impl Lox {
    pub fn new() -> (l: Lox)
        ensures
            !l.had_error,
    {
        Lox { had_error: false }
    }

    /// Scans and parses one source text and renders the expression tree in
    /// prefix form.
    pub fn run(&self, source: &str) -> (r: Result<String, LoxError>)
        requires
            source.spec_bytes().len() < usize::MAX,
        ensures
            ({
                let (ts, es) = scan_spec(source.spec_bytes());
                match r {
                    Ok(out) => es.len() == 0 && (p_expression(ts, 0) matches Ok(p) && out@
                        == spec_print(p.0)),
                    Err(LoxError::Scanner(errs)) => es.len() > 0 && errs@ == es,
                    Err(LoxError::Parser(pe)) => es.len() == 0 && (p_expression(ts, 0) matches
                        Err(ev) && pe@ == ev),
                }
            }),
    {
        let mut scanner = Scanner::new(source.as_bytes());
        let tokens = match scanner.scan_tokens() {
            Ok(t) => t,
            Err(e) => {
                return Err(LoxError::Scanner(e));
            },
        };
        let mut parser = Parser::new(tokens);
        let expression = match parser.parse() {
            Ok(e) => e,
            Err(e) => {
                return Err(LoxError::Parser(e));
            },
        };
        Ok(AstPrinter.print(&expression))
    }

    /// A diagnostic with no location part.
    pub fn error(&mut self, line: usize, message: &str) -> (out: String)
        ensures
            final(self).had_error,
            out@ == spec_report(line as int, ""@, message@),
    {
        self.report(line, "", message)
    }

    /// Renders one diagnostic line and remembers that an error occurred.
    pub fn report(&mut self, line: usize, location: &str, message: &str) -> (out: String)
        ensures
            final(self).had_error,
            out@ == spec_report(line as int, location@, message@),
    {
        let mut out = "[line ".to_owned();
        append_digits(&mut out, line);
        out.append("] Error");
        out.append(location);
        out.append(": ");
        out.append(message);
        self.had_error = true;
        proof {
            assert(out@ =~= spec_report(line as int, location@, message@));
        }
        out
    }

    /// A diagnostic at a token: ` at end` for the end marker, ` at '...'`
    /// with the lexeme for any other token.
    pub fn error_token(&mut self, token: &Token, message: &str) -> (out: String)
        ensures
            final(self).had_error,
            out@ == (if token@.ttype == TokenType::Eof {
                spec_report(token@.line, " at end"@, message@)
            } else {
                spec_report(token@.line, " at '"@ + token@.lexeme + "'"@, message@)
            }),
    {
        if token.ttype == TokenType::Eof {
            self.report(token.line, " at end", message)
        } else {
            let mut loc = " at '".to_owned();
            loc.append(token.lexeme.as_str());
            loc.append("'");
            self.report(token.line, loc.as_str(), message)
        }
    }
}

} // verus!
