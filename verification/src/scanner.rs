use crate::token::{Token, TokenType, TokenV};
use vstd::prelude::*;
use vstd::slice::slice_to_vec;
use vstd::utf8::*;

verus! {

/// A lexical error. Scanning records every error it meets and keeps going,
/// so one pass can report every lexical problem in the input.
#[derive(Clone, Copy, Debug, PartialEq, Eq, Structural)]
pub enum ScannerError {
    /// A lexeme's bytes do not decode as UTF-8.
    InvalidUtf8Char { line: usize },
    /// A byte that starts no lexeme.
    UnexpectedCharacter { c: char, line: usize },
    /// A string literal still open at the end of the input, at the line
    /// the string began.
    UnterminatedString { line: usize },
    /// Reserved for a block-comment form that the grammar does not yet scan.
    UnterminatedComment { line: usize },
}

pub open spec fn is_digit_byte(b: u8) -> bool {
    48 <= b && b <= 57  // '0' ..= '9'
}

pub open spec fn is_alpha_byte(b: u8) -> bool {
    (97 <= b && b <= 122) || (65 <= b && b <= 90) || b == 95  // 'a'..'z', 'A'..'Z', '_'
}

pub open spec fn is_alnum_byte(b: u8) -> bool {
    is_alpha_byte(b) || is_digit_byte(b)
}

/// Position just past a line comment that starts before `j`: the first
/// position at or after `j` holding a newline, or the end of the input.
pub open spec fn comment_end(src: Seq<u8>, j: int) -> int
    decreases src.len() - j,
    when 0 <= j <= src.len()
{
    if j >= src.len() || src[j] == 10 {  // '\n'
        j
    } else {
        comment_end(src, j + 1)
    }
}

/// Position just past the run of ASCII digits starting at `j`.
pub open spec fn digits_end(src: Seq<u8>, j: int) -> int
    decreases src.len() - j,
    when 0 <= j <= src.len()
{
    if j < src.len() && is_digit_byte(src[j]) {
        digits_end(src, j + 1)
    } else {
        j
    }
}

/// Position just past the run of identifier characters starting at `j`.
pub open spec fn alnum_end(src: Seq<u8>, j: int) -> int
    decreases src.len() - j,
    when 0 <= j <= src.len()
{
    if j < src.len() && is_alnum_byte(src[j]) {
        alnum_end(src, j + 1)
    } else {
        j
    }
}

/// Position just past a number lexeme whose first digit stands right before
/// `j`: more digits, then optionally a dot followed by at least one digit.
pub open spec fn number_end(src: Seq<u8>, j: int) -> int {
    let k: int = digits_end(src, j);
    if k + 1 < src.len() && src[k] == 46 && is_digit_byte(src[k + 1]) {  // '.'
        digits_end(src, k + 1)
    } else {
        k
    }
}

/// Walks a string literal's contents from `j`, counting newlines: the
/// position reached (the closing quote, or the end of the input), the line
/// there, and whether a closing quote was found.
pub open spec fn string_scan(src: Seq<u8>, j: int, line: int) -> (int, int, bool)
    decreases src.len() - j,
    when 0 <= j <= src.len()
{
    if j >= src.len() {
        (j, line, false)
    } else if src[j] == 34 {  // '"'
        (j, line, true)
    } else if src[j] == 10 {  // '\n'
        string_scan(src, j + 1, line + 1)
    } else {
        string_scan(src, j + 1, line)
    }
}

/// The keyword kind an identifier lexeme stands for, or `Identifier`.
pub open spec fn keyword_or_ident(s: Seq<u8>) -> TokenType {
    if s.len() == 2 && s[0] == 105 && s[1] == 102 {  // "if"
        TokenType::If
    } else if s.len() == 2 && s[0] == 111 && s[1] == 114 {  // "or"
        TokenType::Or
    } else if s.len() == 3 && s[0] == 97 && s[1] == 110 && s[2] == 100 {  // "and"
        TokenType::And
    } else if s.len() == 3 && s[0] == 102 && s[1] == 111 && s[2] == 114 {  // "for"
        TokenType::For
    } else if s.len() == 3 && s[0] == 102 && s[1] == 117 && s[2] == 110 {  // "fun"
        TokenType::Fun
    } else if s.len() == 3 && s[0] == 110 && s[1] == 105 && s[2] == 108 {  // "nil"
        TokenType::Nil
    } else if s.len() == 3 && s[0] == 118 && s[1] == 97 && s[2] == 114 {  // "var"
        TokenType::Var
    } else if s.len() == 4 && s[0] == 101 && s[1] == 108 && s[2] == 115 && s[3] == 101 {  // "else"
        TokenType::Else
    } else if s.len() == 4 && s[0] == 116 && s[1] == 104 && s[2] == 105 && s[3] == 115 {  // "this"
        TokenType::This
    } else if s.len() == 4 && s[0] == 116 && s[1] == 114 && s[2] == 117 && s[3] == 101 {  // "true"
        TokenType::True
    } else if s.len() == 5 && s[0] == 99 && s[1] == 108 && s[2] == 97 && s[3] == 115 && s[4]
        == 115 {  // "class"
        TokenType::Class
    } else if s.len() == 5 && s[0] == 102 && s[1] == 97 && s[2] == 108 && s[3] == 115 && s[4]
        == 101 {  // "false"
        TokenType::False
    } else if s.len() == 5 && s[0] == 112 && s[1] == 114 && s[2] == 105 && s[3] == 110 && s[4]
        == 116 {  // "print"
        TokenType::Print
    } else if s.len() == 5 && s[0] == 115 && s[1] == 117 && s[2] == 112 && s[3] == 101 && s[4]
        == 114 {  // "super"
        TokenType::Super
    } else if s.len() == 5 && s[0] == 119 && s[1] == 104 && s[2] == 105 && s[3] == 108 && s[4]
        == 101 {  // "while"
        TokenType::While
    } else if s.len() == 6 && s[0] == 114 && s[1] == 101 && s[2] == 116 && s[3] == 117 && s[4]
        == 114 && s[5] == 110 {  // "return"
        TokenType::Return
    } else {
        TokenType::Identifier
    }
}

/// The characters of the byte range `[a, b)` of the source.
pub open spec fn lexeme_chars(src: Seq<u8>, a: int, b: int) -> Seq<char> {
    decode_utf8(src.subrange(a, b))
}

/// The token scanned from the byte range `[a, b)`; no literal payload.
pub open spec fn tok(src: Seq<u8>, a: int, b: int, ttype: TokenType, line: int) -> TokenV {
    TokenV { ttype, lexeme: lexeme_chars(src, a, b), literal: Option::None, line }
}

/// What one scanning step produced: a token, nothing (whitespace or a
/// comment), or an error.
pub enum ScanItem {
    Emit(TokenV),
    Skip,
    Fail(ScannerError),
}

/// The outcome of one scanning step that started at some position: the
/// position and line after it, and what it produced.
pub struct ScanStep {
    pub next: int,
    pub line: int,
    pub item: ScanItem,
}

pub open spec fn step_emit1(src: Seq<u8>, i: int, line: int, ttype: TokenType) -> ScanStep {
    ScanStep { next: i + 1, line, item: ScanItem::Emit(tok(src, i, i + 1, ttype, line)) }
}

/// An operator that is two characters when a `=` follows, else one.
pub open spec fn step_emit2or1(
    src: Seq<u8>,
    i: int,
    line: int,
    two: TokenType,
    one: TokenType,
) -> ScanStep {
    if i + 1 < src.len() && src[i + 1] == 61 {  // '='
        ScanStep { next: i + 2, line, item: ScanItem::Emit(tok(src, i, i + 2, two, line)) }
    } else {
        step_emit1(src, i, line, one)
    }
}

/// A string literal whose opening quote stands at `i`: its token keeps the
/// exact source text, quotes included, as its lexeme, the contents between
/// the quotes as its payload, and the line of the closing quote. When the
/// input ends first, the error names the line the string began.
pub open spec fn step_string(src: Seq<u8>, i: int, line: int) -> ScanStep {
    let (q, l2, found): (int, int, bool) = string_scan(src, i + 1, line);
    if !found {
        ScanStep {
            next: q,
            line: l2,
            item: ScanItem::Fail(ScannerError::UnterminatedString { line: line as usize }),
        }
    } else if valid_utf8(src.subrange(i + 1, q)) {
        ScanStep {
            next: q + 1,
            line: l2,
            item: ScanItem::Emit(
                TokenV {
                    ttype: TokenType::Str,
                    lexeme: "\""@ + lexeme_chars(src, i + 1, q) + "\""@,
                    literal: Option::Some(lexeme_chars(src, i + 1, q)),
                    line: l2,
                },
            ),
        }
    } else {
        ScanStep {
            next: q + 1,
            line: l2,
            item: ScanItem::Fail(ScannerError::InvalidUtf8Char { line: l2 as usize }),
        }
    }
}

/// One scanning step at position `i` (which must hold a byte): classify the
/// byte, consume the whole lexeme it starts, and say what came of it.
pub open spec fn scan_step(src: Seq<u8>, i: int, line: int) -> ScanStep
    recommends
        0 <= i < src.len(),
{
    let c = src[i];
    if c == 40 {  // '('
        step_emit1(src, i, line, TokenType::LeftParen)
    } else if c == 41 {  // ')'
        step_emit1(src, i, line, TokenType::RightParen)
    } else if c == 123 {  // '{'
        step_emit1(src, i, line, TokenType::LeftBrace)
    } else if c == 125 {  // '}'
        step_emit1(src, i, line, TokenType::RightBrace)
    } else if c == 44 {  // ','
        step_emit1(src, i, line, TokenType::Comma)
    } else if c == 46 {  // '.'
        step_emit1(src, i, line, TokenType::Dot)
    } else if c == 45 {  // '-'
        step_emit1(src, i, line, TokenType::Minus)
    } else if c == 43 {  // '+'
        step_emit1(src, i, line, TokenType::Plus)
    } else if c == 59 {  // ';'
        step_emit1(src, i, line, TokenType::Semicolon)
    } else if c == 42 {  // '*'
        step_emit1(src, i, line, TokenType::Star)
    } else if c == 33 {  // '!'
        step_emit2or1(src, i, line, TokenType::BangEqual, TokenType::Bang)
    } else if c == 61 {  // '='
        step_emit2or1(src, i, line, TokenType::EqualEqual, TokenType::Equal)
    } else if c == 60 {  // '<'
        step_emit2or1(src, i, line, TokenType::LessEqual, TokenType::Less)
    } else if c == 62 {  // '>'
        step_emit2or1(src, i, line, TokenType::GreaterEqual, TokenType::Greater)
    } else if c == 47 {  // '/'
        if i + 1 < src.len() && src[i + 1] == 47 {  // '/'
            ScanStep { next: comment_end(src, i + 2), line, item: ScanItem::Skip }
        } else {
            step_emit1(src, i, line, TokenType::Slash)
        }
    } else if c == 32 || c == 13 || c == 9 {  // ' ', '\r', '\t'
        ScanStep { next: i + 1, line, item: ScanItem::Skip }
    } else if c == 10 {  // '\n'
        ScanStep { next: i + 1, line: line + 1, item: ScanItem::Skip }
    } else if c == 34 {  // '"'
        step_string(src, i, line)
    } else if is_digit_byte(c) {
        let e: int = number_end(src, i + 1);
        ScanStep { next: e, line, item: ScanItem::Emit(tok(src, i, e, TokenType::Number, line)) }
    } else if is_alpha_byte(c) {
        let e: int = alnum_end(src, i + 1);
        ScanStep {
            next: e,
            line,
            item: ScanItem::Emit(tok(src, i, e, keyword_or_ident(src.subrange(i, e)), line)),
        }
    } else {
        ScanStep {
            next: i + 1,
            line,
            item: ScanItem::Fail(
                ScannerError::UnexpectedCharacter { c: c as char, line: line as usize },
            ),
        }
    }
}

pub proof fn lemma_comment_end_bounds(src: Seq<u8>, j: int)
    requires
        0 <= j <= src.len(),
    ensures
        j <= comment_end(src, j) <= src.len(),
    decreases src.len() - j,
{
    if !(j >= src.len() || src[j] == 10) {
        lemma_comment_end_bounds(src, j + 1);
    }
}

pub proof fn lemma_digits_end_bounds(src: Seq<u8>, j: int)
    requires
        0 <= j <= src.len(),
    ensures
        j <= digits_end(src, j) <= src.len(),
    decreases src.len() - j,
{
    if j < src.len() && is_digit_byte(src[j]) {
        lemma_digits_end_bounds(src, j + 1);
    }
}

pub proof fn lemma_alnum_end_bounds(src: Seq<u8>, j: int)
    requires
        0 <= j <= src.len(),
    ensures
        j <= alnum_end(src, j) <= src.len(),
    decreases src.len() - j,
{
    if j < src.len() && is_alnum_byte(src[j]) {
        lemma_alnum_end_bounds(src, j + 1);
    }
}

pub proof fn lemma_string_scan_bounds(src: Seq<u8>, j: int, line: int)
    requires
        0 <= j <= src.len(),
    ensures
        ({
            let (q, l2, found): (int, int, bool) = string_scan(src, j, line);
            &&& j <= q <= src.len()
            &&& (found ==> q < src.len())
            &&& line <= l2 <= line + (q - j)
        }),
    decreases src.len() - j,
{
    if j < src.len() && src[j] != 34 {
        lemma_string_scan_bounds(src, j + 1, if src[j] == 10 { line + 1 } else { line });
    }
}

/// One step starting inside the input always moves forward, stays inside it,
/// never lowers the line counter by more than the bytes it consumed could,
/// and never produces the end-marker kind.
pub proof fn lemma_scan_step_bounds(src: Seq<u8>, i: int, line: int)
    requires
        0 <= i < src.len(),
    ensures
        ({
            let st = scan_step(src, i, line);
            &&& i < st.next <= src.len()
            &&& line <= st.line <= line + (st.next - i)
            &&& (st.item matches ScanItem::Emit(t) ==> t.ttype != TokenType::Eof)
        }),
{
    let c = src[i];
    if c == 47 && i + 1 < src.len() && src[i + 1] == 47 {
        lemma_comment_end_bounds(src, i + 2);
    }
    if c == 34 {  // '"'
        lemma_string_scan_bounds(src, i + 1, line);
    }
    if is_digit_byte(c) && !(c == 34) {
        lemma_digits_end_bounds(src, i + 1);
        let k: int = digits_end(src, i + 1);
        if k + 1 < src.len() && src[k] == 46 && is_digit_byte(src[k + 1]) {  // '.'
            lemma_digits_end_bounds(src, k + 1);
        }
    }
    if is_alpha_byte(c) {
        lemma_alnum_end_bounds(src, i + 1);
    }
}

/// Scanning from position `i` on line `line`, with the tokens and errors
/// already produced: steps through the rest of the input and appends exactly
/// one end-marker token at the final line.
pub open spec fn scan_from(
    src: Seq<u8>,
    i: int,
    line: int,
    toks: Seq<TokenV>,
    errs: Seq<ScannerError>,
) -> (Seq<TokenV>, Seq<ScannerError>)
    decreases src.len() - i,
    when 0 <= i <= src.len()
    via scan_from_decreases
{
    if i >= src.len() {
        (
            toks.push(
                TokenV {
                    ttype: TokenType::Eof,
                    lexeme: Seq::empty(),
                    literal: Option::None,
                    line,
                },
            ),
            errs,
        )
    } else {
        let st = scan_step(src, i, line);
        let toks2 = (match st.item {
            ScanItem::Emit(t) => toks.push(t),
            _ => toks,
        });
        let errs2 = (match st.item {
            ScanItem::Fail(e) => errs.push(e),
            _ => errs,
        });
        scan_from(src, st.next, st.line, toks2, errs2)
    }
}

#[via_fn]
proof fn scan_from_decreases(
    src: Seq<u8>,
    i: int,
    line: int,
    toks: Seq<TokenV>,
    errs: Seq<ScannerError>,
) {
    if i < src.len() {
        lemma_scan_step_bounds(src, i, line);
    }
}

/// Everything one scan of the whole input produces: its tokens and its
/// errors, in order.
pub open spec fn scan_spec(src: Seq<u8>) -> (Seq<TokenV>, Seq<ScannerError>) {
    scan_from(src, 0, 1, Seq::empty(), Seq::empty())
}

/// A run of bytes below `0x80` is valid UTF-8 and decodes to the characters
/// with the same values.
pub proof fn lemma_ascii_decode(bytes: Seq<u8>)
    requires
        forall|k: int| 0 <= k < bytes.len() ==> bytes[k] < 0x80,
    ensures
        valid_utf8(bytes),
        decode_utf8(bytes) =~= Seq::new(bytes.len(), |k: int| bytes[k] as char),
    decreases bytes.len(),
{
    if bytes.len() > 0 {
        let b = bytes[0];
        assert(b & 0x7f == b) by (bit_vector)
            requires
                b < 0x80,
        ;
        assert(is_leading_byte_width_1(b));
        assert(decode_first_codepoint(bytes) == b as u32);
        assert(valid_first_scalar(bytes));
        assert(length_of_first_scalar(bytes) == 1);
        assert(pop_first_scalar(bytes) =~= bytes.subrange(1, bytes.len() as int));
        lemma_ascii_decode(bytes.subrange(1, bytes.len() as int));
        assert(valid_utf8(bytes));
        assert(decode_utf8(bytes) =~= Seq::new(bytes.len(), |k: int| bytes[k] as char));
    }
}

/// Relies on `String::from_utf8`: it returns the decoded string exactly when
/// the bytes are a valid UTF-8 encoding, and rejects them otherwise.
#[verifier::external_body]
fn bytes_to_string(bytes: Vec<u8>) -> (r: Option<String>)
    ensures
        r is Some <==> valid_utf8(bytes@),
        r matches Some(s) ==> s@ == decode_utf8(bytes@),
{
    match String::from_utf8(bytes) {
        Ok(s) => Some(s),
        Err(_) => None,
    }
}

/// Copies the byte range `[a, b)` of a vector.
fn byte_range(v: &Vec<u8>, a: usize, b: usize) -> (r: Vec<u8>)
    requires
        a <= b <= v@.len(),
    ensures
        r@ == v@.subrange(a as int, b as int),
{
    let mut out: Vec<u8> = Vec::new();
    let mut k: usize = a;
    while k < b
        invariant
            a <= k <= b <= v@.len(),
            out@ == v@.subrange(a as int, k as int),
        decreases b - k,
    {
        out.push(v[k]);
        k = k + 1;
        proof {
            assert(out@ =~= v@.subrange(a as int, k as int));
        }
    }
    out
}

/// Walks source bytes and produces tokens. Owns two cursor offsets and a
/// line counter over an immutable copy of the source; built fresh for each
/// input, used once, and discarded.
pub struct Scanner {
    pub source: Vec<u8>,
    pub start: usize,
    pub current: usize,
    pub line: usize,
}

impl Scanner {
    /// The cursors stand inside the source and the line counter never gets
    /// ahead of the bytes consumed.
    pub open spec fn wf(&self) -> bool {
        &&& self.source@.len() < usize::MAX
        &&& self.start <= self.current <= self.source@.len()
        &&& 1 <= self.line
        &&& self.line <= self.current + 1
    }

    pub fn new(source: &[u8]) -> (s: Scanner)
        requires
            source@.len() < usize::MAX,
        ensures
            s.wf(),
            s.source@ == source@,
            s.start == 0,
            s.current == 0,
            s.line == 1,
    {
        Scanner { source: slice_to_vec(source), start: 0, current: 0, line: 1 }
    }

    fn is_at_end(&self) -> (r: bool)
        ensures
            r == (self.current >= self.source@.len()),
    {
        self.current >= self.source.len()
    }

    fn advance(&mut self) -> (c: u8)
        requires
            old(self).wf(),
            old(self).current < old(self).source@.len(),
        ensures
            final(self).wf(),
            c == old(self).source@[old(self).current as int],
            final(self).current == old(self).current + 1,
            final(self).source@ == old(self).source@,
            final(self).start == old(self).start,
            final(self).line == old(self).line,
    {
        let c = self.source[self.current];
        self.current = self.current + 1;
        c
    }

    fn peek(&self) -> (c: u8)
        requires
            self.wf(),
        ensures
            c == (if self.current < self.source@.len() {
                self.source@[self.current as int]
            } else {
                0u8
            }),
    {
        if self.is_at_end() {
            0
        } else {
            self.source[self.current]
        }
    }

    fn peek_next(&self) -> (c: u8)
        requires
            self.wf(),
        ensures
            c == (if self.current + 1 < self.source@.len() {
                self.source@[self.current + 1]
            } else {
                0u8
            }),
    {
        if self.current + 1 >= self.source.len() {
            0
        } else {
            self.source[self.current + 1]
        }
    }

    fn matches(&mut self, c: u8) -> (r: bool)
        requires
            old(self).wf(),
        ensures
            final(self).wf(),
            final(self).source@ == old(self).source@,
            final(self).start == old(self).start,
            final(self).line == old(self).line,
            r == (old(self).current < old(self).source@.len() && old(self).source@[old(
                self,
            ).current as int] == c),
            final(self).current as int == (if r {
                old(self).current + 1
            } else {
                old(self).current as int
            }),
    {
        if self.is_at_end() {
            return false;
        }
        if self.peek() != c {
            return false;
        }
        self.current = self.current + 1;
        true
    }

    fn is_alpha(&self, character: u8) -> (r: bool)
        ensures
            r == is_alpha_byte(character),
    {
        (97 <= character && character <= 122) || (65 <= character && character <= 90) || character
            == 95
    }

    fn is_digit(&self, character: u8) -> (r: bool)
        ensures
            r == is_digit_byte(character),
    {
        48 <= character && character <= 57
    }

    fn is_alphanumeric(&self, character: u8) -> (r: bool)
        ensures
            r == is_alnum_byte(character),
    {
        self.is_alpha(character) || self.is_digit(character)
    }

    /// Decodes the byte range `[a, b)` of the source, or reports where the
    /// bytes are no valid UTF-8.
    fn substring(&self, a: usize, b: usize) -> (r: Result<String, ScannerError>)
        requires
            self.wf(),
            a <= b <= self.source@.len(),
        ensures
            ({
                let sub = self.source@.subrange(a as int, b as int);
                match r {
                    Ok(s) => valid_utf8(sub) && s@ == decode_utf8(sub),
                    Err(e) => !valid_utf8(sub) && e == (ScannerError::InvalidUtf8Char {
                        line: self.line,
                    }),
                }
            }),
    {
        let bytes = byte_range(&self.source, a, b);
        match bytes_to_string(bytes) {
            Some(s) => Ok(s),
            None => Err(ScannerError::InvalidUtf8Char { line: self.line }),
        }
    }

    /// The token for the lexeme between the cursors, which must be ASCII.
    fn make_token(&self, ttype: TokenType) -> (t: Token)
        requires
            self.wf(),
            forall|k: int| self.start <= k < self.current ==> self.source@[k] < 0x80,
        ensures
            t@ == tok(self.source@, self.start as int, self.current as int, ttype, self.line as int),
    {
        proof {
            lemma_ascii_decode(self.source@.subrange(self.start as int, self.current as int));
        }
        let bytes = byte_range(&self.source, self.start, self.current);
        let text = bytes_to_string(bytes).unwrap();
        Token { ttype, lexeme: text, literal: None, line: self.line }
    }

    /// A string literal whose opening quote the cursor has just passed: the
    /// token keeps the quoted source text and the contents between the
    /// quotes; an unterminated string is reported at the line it began.
    fn string(&mut self) -> (r: Result<Token, ScannerError>)
        requires
            old(self).wf(),
            old(self).current == old(self).start + 1,
        ensures
            final(self).wf(),
            final(self).source@ == old(self).source@,
            final(self).start == old(self).start,
            ({
                let st = step_string(old(self).source@, old(self).start as int, old(
                    self,
                ).line as int);
                &&& final(self).current as int == st.next
                &&& final(self).line as int == st.line
                &&& match st.item {
                    ScanItem::Emit(t) => r matches Ok(tk) && tk@ == t,
                    ScanItem::Fail(e) => r matches Err(e2) && e2 == e,
                    ScanItem::Skip => false,
                }
            }),
    {
        let ghost src = old(self).source@;
        let ghost j0 = old(self).current as int;
        let ghost l0 = old(self).line as int;
        let opening_line = self.line;
        while self.peek() != 34 && !self.is_at_end()  // '"'
            invariant
                self.wf(),
                self.source@ == src,
                self.start == old(self).start,
                j0 <= self.current as int <= src.len(),
                self.start < self.current,
                opening_line as int == l0,
                string_scan(src, self.current as int, self.line as int) == string_scan(
                    src,
                    j0,
                    l0,
                ),
            decreases src.len() - self.current,
        {
            let c = self.advance();
            if c == 10 {  // '\n'  // '\n'
                self.line = self.line + 1;
            }
        }
        if self.is_at_end() {
            return Err(ScannerError::UnterminatedString { line: opening_line });
        }
        self.advance();
        match self.substring(self.start + 1, self.current - 1) {
            Ok(value) => {
                let mut lexeme = "\"".to_owned();
                lexeme.append(value.as_str());
                lexeme.append("\"");
                Ok(
                    Token {
                        ttype: TokenType::Str,
                        lexeme,
                        literal: Some(value),
                        line: self.line,
                    },
                )
            },
            Err(e) => Err(e),
        }
    }

    /// A number lexeme whose first digit the cursor has just passed: digits,
    /// optionally a dot followed by at least one more digit. A trailing dot
    /// with no digit after it is left unconsumed.
    fn number(&mut self) -> (t: Token)
        requires
            old(self).wf(),
            old(self).current == old(self).start + 1,
            old(self).current <= old(self).source@.len(),
            is_digit_byte(old(self).source@[old(self).start as int]),
        ensures
            final(self).wf(),
            final(self).source@ == old(self).source@,
            final(self).start == old(self).start,
            final(self).line == old(self).line,
            final(self).current as int == number_end(old(self).source@, old(self).current as int),
            t@ == tok(
                old(self).source@,
                old(self).start as int,
                number_end(old(self).source@, old(self).current as int),
                TokenType::Number,
                old(self).line as int,
            ),
    {
        let ghost src = old(self).source@;
        let ghost j0 = old(self).current as int;
        while self.is_digit(self.peek())
            invariant
                self.wf(),
                self.source@ == src,
                self.start == old(self).start,
                self.line == old(self).line,
                j0 <= self.current as int <= src.len(),
                self.start < self.current,
                digits_end(src, self.current as int) == digits_end(src, j0),
                forall|k: int| self.start <= k < self.current ==> src[k] < 0x80,
            decreases src.len() - self.current,
        {
            self.advance();
        }
        if self.peek() == 46 && self.is_digit(self.peek_next()) {  // '.'
            self.advance();
            let ghost j1 = self.current as int;
            while self.is_digit(self.peek())
                invariant
                    self.wf(),
                    self.source@ == src,
                    self.start == old(self).start,
                    self.line == old(self).line,
                    j1 <= self.current as int <= src.len(),
                    self.start < self.current,
                    digits_end(src, self.current as int) == digits_end(src, j1),
                    forall|k: int| self.start <= k < self.current ==> src[k] < 0x80,
                decreases src.len() - self.current,
            {
                self.advance();
            }
        }
        self.make_token(TokenType::Number)
    }

    /// The keyword kind of the lexeme between the cursors, or `Identifier`.
    fn keyword_type(&self) -> (tt: TokenType)
        requires
            self.wf(),
        ensures
            tt == keyword_or_ident(
                self.source@.subrange(self.start as int, self.current as int),
            ),
    {
        let s = self.start;
        let n = self.current - self.start;
        if n == 2 {
            let a0 = self.source[s];
            let a1 = self.source[s + 1];
            if a0 == 105 && a1 == 102 {  // "if"
                return TokenType::If;
            }
            if a0 == 111 && a1 == 114 {  // "or"
                return TokenType::Or;
            }
        } else if n == 3 {
            let a0 = self.source[s];
            let a1 = self.source[s + 1];
            let a2 = self.source[s + 2];
            if a0 == 97 && a1 == 110 && a2 == 100 {  // "and"
                return TokenType::And;
            }
            if a0 == 102 && a1 == 111 && a2 == 114 {  // "for"
                return TokenType::For;
            }
            if a0 == 102 && a1 == 117 && a2 == 110 {  // "fun"
                return TokenType::Fun;
            }
            if a0 == 110 && a1 == 105 && a2 == 108 {  // "nil"
                return TokenType::Nil;
            }
            if a0 == 118 && a1 == 97 && a2 == 114 {  // "var"
                return TokenType::Var;
            }
        } else if n == 4 {
            let a0 = self.source[s];
            let a1 = self.source[s + 1];
            let a2 = self.source[s + 2];
            let a3 = self.source[s + 3];
            if a0 == 101 && a1 == 108 && a2 == 115 && a3 == 101 {  // "else"
                return TokenType::Else;
            }
            if a0 == 116 && a1 == 104 && a2 == 105 && a3 == 115 {  // "this"
                return TokenType::This;
            }
            if a0 == 116 && a1 == 114 && a2 == 117 && a3 == 101 {  // "true"
                return TokenType::True;
            }
        } else if n == 5 {
            let a0 = self.source[s];
            let a1 = self.source[s + 1];
            let a2 = self.source[s + 2];
            let a3 = self.source[s + 3];
            let a4 = self.source[s + 4];
            if a0 == 99 && a1 == 108 && a2 == 97 && a3 == 115 && a4 == 115 {  // "class"
                return TokenType::Class;
            }
            if a0 == 102 && a1 == 97 && a2 == 108 && a3 == 115 && a4 == 101 {  // "false"
                return TokenType::False;
            }
            if a0 == 112 && a1 == 114 && a2 == 105 && a3 == 110 && a4 == 116 {  // "print"
                return TokenType::Print;
            }
            if a0 == 115 && a1 == 117 && a2 == 112 && a3 == 101 && a4 == 114 {  // "super"
                return TokenType::Super;
            }
            if a0 == 119 && a1 == 104 && a2 == 105 && a3 == 108 && a4 == 101 {  // "while"
                return TokenType::While;
            }
        } else if n == 6 {
            let a0 = self.source[s];
            let a1 = self.source[s + 1];
            let a2 = self.source[s + 2];
            let a3 = self.source[s + 3];
            let a4 = self.source[s + 4];
            let a5 = self.source[s + 5];
            if a0 == 114 && a1 == 101 && a2 == 116 && a3 == 117 && a4 == 114 && a5 == 110 {  // "return"
                return TokenType::Return;
            }
        }
        TokenType::Identifier
    }

    /// An identifier or keyword lexeme whose first character the cursor has
    /// just passed.
    fn identifier(&mut self) -> (t: Token)
        requires
            old(self).wf(),
            old(self).current == old(self).start + 1,
            old(self).current <= old(self).source@.len(),
            is_alpha_byte(old(self).source@[old(self).start as int]),
        ensures
            final(self).wf(),
            final(self).source@ == old(self).source@,
            final(self).start == old(self).start,
            final(self).line == old(self).line,
            final(self).current as int == alnum_end(old(self).source@, old(self).current as int),
            t@ == tok(
                old(self).source@,
                old(self).start as int,
                alnum_end(old(self).source@, old(self).current as int),
                keyword_or_ident(
                    old(self).source@.subrange(
                        old(self).start as int,
                        alnum_end(old(self).source@, old(self).current as int),
                    ),
                ),
                old(self).line as int,
            ),
    {
        let ghost src = old(self).source@;
        let ghost j0 = old(self).current as int;
        while self.is_alphanumeric(self.peek())
            invariant
                self.wf(),
                self.source@ == src,
                self.start == old(self).start,
                self.line == old(self).line,
                j0 <= self.current as int <= src.len(),
                self.start < self.current,
                alnum_end(src, self.current as int) == alnum_end(src, j0),
                forall|k: int| self.start <= k < self.current ==> src[k] < 0x80,
            decreases src.len() - self.current,
        {
            self.advance();
        }
        let tt = self.keyword_type();
        self.make_token(tt)
    }

    /// One scanning step: consume one lexeme, comment or whitespace run, and
    /// say what came of it, exactly as `scan_step` describes.
    fn scan_token(&mut self) -> (r: Result<Option<Token>, ScannerError>)
        requires
            old(self).wf(),
            old(self).start == old(self).current,
            old(self).current < old(self).source@.len(),
        ensures
            final(self).wf(),
            final(self).source@ == old(self).source@,
            ({
                let st = scan_step(old(self).source@, old(self).current as int, old(
                    self,
                ).line as int);
                &&& final(self).current as int == st.next
                &&& final(self).line as int == st.line
                &&& match st.item {
                    ScanItem::Emit(t) => r matches Ok(Some(tk)) && tk@ == t,
                    ScanItem::Skip => r matches Ok(None),
                    ScanItem::Fail(e) => r matches Err(e2) && e2 == e,
                }
            }),
    {
        let ghost src = old(self).source@;
        let ghost i0 = old(self).current as int;
        let c = self.advance();
        if c == 40 {  // '('
            Ok(Some(self.make_token(TokenType::LeftParen)))
        } else if c == 41 {  // ')'
            Ok(Some(self.make_token(TokenType::RightParen)))
        } else if c == 123 {  // '{'
            Ok(Some(self.make_token(TokenType::LeftBrace)))
        } else if c == 125 {  // '}'
            Ok(Some(self.make_token(TokenType::RightBrace)))
        } else if c == 44 {  // ','
            Ok(Some(self.make_token(TokenType::Comma)))
        } else if c == 46 {  // '.'
            Ok(Some(self.make_token(TokenType::Dot)))
        } else if c == 45 {  // '-'
            Ok(Some(self.make_token(TokenType::Minus)))
        } else if c == 43 {  // '+'
            Ok(Some(self.make_token(TokenType::Plus)))
        } else if c == 59 {  // ';'
            Ok(Some(self.make_token(TokenType::Semicolon)))
        } else if c == 42 {  // '*'
            Ok(Some(self.make_token(TokenType::Star)))
        } else if c == 33 {  // '!'
            if self.matches(61) {  // '='
                Ok(Some(self.make_token(TokenType::BangEqual)))
            } else {
                Ok(Some(self.make_token(TokenType::Bang)))
            }
        } else if c == 61 {  // '='
            if self.matches(61) {  // '='
                Ok(Some(self.make_token(TokenType::EqualEqual)))
            } else {
                Ok(Some(self.make_token(TokenType::Equal)))
            }
        } else if c == 60 {  // '<'
            if self.matches(61) {  // '='
                Ok(Some(self.make_token(TokenType::LessEqual)))
            } else {
                Ok(Some(self.make_token(TokenType::Less)))
            }
        } else if c == 62 {  // '>'
            if self.matches(61) {  // '='
                Ok(Some(self.make_token(TokenType::GreaterEqual)))
            } else {
                Ok(Some(self.make_token(TokenType::Greater)))
            }
        } else if c == 47 {  // '/'
            if self.matches(47) {  // '/'
                let ghost j2 = self.current as int;
                while self.peek() != 10 && !self.is_at_end()  // '\n'
                    invariant
                        self.wf(),
                        self.source@ == src,
                        self.line == old(self).line,
                        j2 <= self.current as int <= src.len(),
                        comment_end(src, self.current as int) == comment_end(src, j2),
                    decreases src.len() - self.current,
                {
                    self.advance();
                }
                Ok(None)
            } else {
                Ok(Some(self.make_token(TokenType::Slash)))
            }
        } else if c == 32 || c == 13 || c == 9 {  // ' ', '\r', '\t'
            Ok(None)
        } else if c == 10 {  // '\n'
            self.line = self.line + 1;
            Ok(None)
        } else if c == 34 {  // '"'
            match self.string() {
                Ok(t) => Ok(Some(t)),
                Err(e) => Err(e),
            }
        } else if self.is_digit(c) {
            Ok(Some(self.number()))
        } else if self.is_alpha(c) {
            Ok(Some(self.identifier()))
        } else {
            Err(ScannerError::UnexpectedCharacter { c: c as char, line: self.line })
        }
    }

    /// Scans the whole input. Every lexical error is recorded and scanning
    /// goes on, so one pass reports them all; the tokens come back only when
    /// no error occurred. The token sequence always ends in exactly one
    /// end-marker token, and the end-marker kind appears nowhere else in it.
    pub fn scan_tokens(&mut self) -> (r: Result<Vec<Token>, Vec<ScannerError>>)
        requires
            old(self).wf(),
            old(self).start == 0,
            old(self).current == 0,
            old(self).line == 1,
        ensures
            ({
                let (ts, es) = scan_spec(old(self).source@);
                match r {
                    Ok(tokens) => es.len() == 0 && tokens@.map_values(|t: Token| t@) == ts,
                    Err(errors) => es.len() > 0 && errors@ == es,
                }
            }),
            r matches Ok(tokens) ==> tokens@.len() >= 1 && tokens@[tokens@.len() - 1]@.ttype
                == TokenType::Eof && (forall|k: int|
                0 <= k < tokens@.len() - 1 ==> (#[trigger] tokens@[k])@.ttype != TokenType::Eof),
    {
        let ghost src = old(self).source@;
        let mut tokens: Vec<Token> = Vec::new();
        let mut errors: Vec<ScannerError> = Vec::new();
        proof {
            assert(tokens@.map_values(|t: Token| t@) =~= Seq::<TokenV>::empty());
            assert(errors@ =~= Seq::<ScannerError>::empty());
        }
        while !self.is_at_end()
            invariant
                self.wf(),
                self.source@ == src,
                scan_from(
                    src,
                    self.current as int,
                    self.line as int,
                    tokens@.map_values(|t: Token| t@),
                    errors@,
                ) == scan_spec(src),
                forall|k: int|
                    0 <= k < tokens@.len() ==> (#[trigger] tokens@[k])@.ttype != TokenType::Eof,
            decreases src.len() - self.current,
        {
            self.start = self.current;
            proof {
                lemma_scan_step_bounds(src, self.current as int, self.line as int);
            }
            let ghost pre_toks = tokens@.map_values(|t: Token| t@);
            let t = self.scan_token();
            match t {
                Ok(Some(tk)) => {
                    tokens.push(tk);
                    proof {
                        assert(tokens@.map_values(|t: Token| t@) =~= pre_toks.push(tk@));
                    }
                },
                Ok(None) => {},
                Err(e) => {
                    errors.push(e);
                },
            }
        }
        let ghost pre_toks = tokens@.map_values(|t: Token| t@);
        tokens.push(Token::new(TokenType::Eof, "", self.line));
        proof {
            reveal_strlit("");
            assert(""@ =~= Seq::<char>::empty());
            assert(tokens@.map_values(|t: Token| t@) =~= pre_toks.push(
                TokenV {
                    ttype: TokenType::Eof,
                    lexeme: Seq::empty(),
                    literal: Option::None,
                    line: self.line as int,
                },
            ));
        }
        if errors.len() != 0 {
            Err(errors)
        } else {
            Ok(tokens)
        }
    }
}

} // verus!
