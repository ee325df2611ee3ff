use crate::ast_printer::spec_print;
use crate::expr::ExprV;
use crate::literal::{spec_render, LiteralV};
use crate::parser::{
    p_comparison, p_comparison_rest, p_equality, p_equality_rest, p_expression, p_factor,
    p_factor_rest, p_primary, p_term, p_term_rest, p_unary, next_pos, tokens_wf,
};
use crate::scanner::{
    alnum_end, digits_end, is_alnum_byte, is_alpha_byte, is_digit_byte, keyword_or_ident,
    lemma_ascii_decode, number_end, scan_from, scan_spec, scan_step, ScanItem, ScannerError,
};
use crate::token::{TokenType, TokenV};
use vstd::prelude::*;
use vstd::utf8::*;

verus! {

/// A run of identifier bytes reaches the end of the input.
proof fn lemma_alnum_end_all(bytes: Seq<u8>, j: int)
    requires
        0 <= j <= bytes.len(),
        forall|k: int| j <= k < bytes.len() ==> is_alnum_byte(#[trigger] bytes[k]),
    ensures
        alnum_end(bytes, j) == bytes.len(),
    decreases bytes.len() - j,
{
    if j < bytes.len() {
        lemma_alnum_end_all(bytes, j + 1);
    }
}

/// Scanning an input that is one whole keyword or identifier lexeme yields
/// exactly that token on line 1 and the end marker, and no errors.
proof fn lemma_scan_single_word(bytes: Seq<u8>, tk: TokenType)
    requires
        1 <= bytes.len(),
        is_alpha_byte(bytes[0]),
        forall|k: int| 0 <= k < bytes.len() ==> is_alnum_byte(#[trigger] bytes[k]),
        keyword_or_ident(bytes) == tk,
    ensures
        scan_spec(bytes) == (
            seq![
                TokenV { ttype: tk, lexeme: decode_utf8(bytes), literal: Option::None, line: 1 },
                TokenV { ttype: TokenType::Eof, lexeme: Seq::empty(), literal: Option::None, line: 1 },
            ],
            Seq::<ScannerError>::empty(),
        ),
{
    let n = bytes.len() as int;
    lemma_alnum_end_all(bytes, 1);
    let st = scan_step(bytes, 0, 1);
    assert(bytes.subrange(0, n) =~= bytes);
    let t = TokenV { ttype: tk, lexeme: decode_utf8(bytes), literal: Option::None, line: 1 };
    assert(st.item == ScanItem::Emit(t) && st.next == n && st.line == 1);
    let toks = Seq::<TokenV>::empty().push(t);
    let errs = Seq::<ScannerError>::empty();
    assert(scan_from(bytes, n, 1, toks, errs) == (
        toks.push(TokenV { ttype: TokenType::Eof, lexeme: Seq::empty(), literal: Option::None, line: 1 }),
        errs,
    ));
    assert(scan_spec(bytes) == scan_from(bytes, n, 1, toks, errs));
    assert(toks.push(TokenV { ttype: TokenType::Eof, lexeme: Seq::empty(), literal: Option::None, line: 1 }) =~= seq![
        t,
        TokenV { ttype: TokenType::Eof, lexeme: Seq::empty(), literal: Option::None, line: 1 },
    ]);
}

/// Parsing a token sequence of one literal token and the end marker yields
/// exactly that literal, with the end marker left unconsumed.
proof fn lemma_parse_single_literal(ts: Seq<TokenV>, v: LiteralV)
    requires
        ts.len() == 2,
        ts[1].ttype == TokenType::Eof,
        (ts[0].ttype == TokenType::True && v == LiteralV::Bool(true)) || (ts[0].ttype
            == TokenType::False && v == LiteralV::Bool(false)) || (ts[0].ttype == TokenType::Nil
            && v == LiteralV::Nil) || (ts[0].ttype == TokenType::Number && v == LiteralV::Number(
            ts[0].lexeme,
        )),
    ensures
        tokens_wf(ts),
        p_expression(ts, 0) == Result::<(ExprV, int), crate::parser::ParserErrorV>::Ok(
            (ExprV::Literal { value: v }, 1int),
        ),
{
    assert(tokens_wf(ts));
    let e = ExprV::Literal { value: v };
    assert(p_primary(ts, 0) == Result::<(ExprV, int), crate::parser::ParserErrorV>::Ok(
        (e, 1int),
    ));
    assert(p_unary(ts, 0) == p_primary(ts, 0));
    assert(next_pos(ts, 0, 1) == 1);
    assert(p_factor_rest(ts, 1, e) == Result::<(ExprV, int), crate::parser::ParserErrorV>::Ok(
        (e, 1int),
    ));
    assert(p_factor(ts, 0) == p_factor_rest(ts, 1, e));
    assert(p_term_rest(ts, 1, e) == Result::<(ExprV, int), crate::parser::ParserErrorV>::Ok(
        (e, 1int),
    ));
    assert(p_term(ts, 0) == p_term_rest(ts, 1, e));
    assert(p_comparison_rest(ts, 1, e) == Result::<(ExprV, int), crate::parser::ParserErrorV>::Ok(
        (e, 1int),
    ));
    assert(p_comparison(ts, 0) == p_comparison_rest(ts, 1, e));
    assert(p_equality_rest(ts, 1, e) == Result::<(ExprV, int), crate::parser::ParserErrorV>::Ok(
        (e, 1int),
    ));
    assert(p_equality(ts, 0) == p_equality_rest(ts, 1, e));
    assert(p_expression(ts, 0) == p_equality(ts, 0));
}

/// A run of digit bytes ends exactly where the digits end.
proof fn lemma_digits_end_all(bytes: Seq<u8>, j: int, e: int)
    requires
        0 <= j <= e <= bytes.len(),
        forall|k: int| j <= k < e ==> is_digit_byte(#[trigger] bytes[k]),
        e == bytes.len() || !is_digit_byte(bytes[e]),
    ensures
        digits_end(bytes, j) == e,
    decreases e - j,
{
    if j < e {
        lemma_digits_end_all(bytes, j + 1, e);
    }
}

/// Scanning an input that is one whole number lexeme, digits with an
/// optional dot-and-digits fraction split at `d`, yields exactly that
/// number token on line 1 and the end marker, and no errors.
proof fn lemma_scan_number(bytes: Seq<u8>, d: int)
    requires
        1 <= d <= bytes.len(),
        forall|k: int| 0 <= k < d ==> is_digit_byte(#[trigger] bytes[k]),
        d == bytes.len() || (bytes[d] == 46 && d + 1 < bytes.len() && (forall|k: int|
            d + 1 <= k < bytes.len() ==> is_digit_byte(#[trigger] bytes[k]))),
    ensures
        scan_spec(bytes) == (
            seq![
                TokenV { ttype: TokenType::Number, lexeme: decode_utf8(bytes), literal: Option::None, line: 1 },
                TokenV { ttype: TokenType::Eof, lexeme: Seq::empty(), literal: Option::None, line: 1 },
            ],
            Seq::<ScannerError>::empty(),
        ),
{
    let n = bytes.len() as int;
    if d == n {
        lemma_digits_end_all(bytes, 1, n);
    } else {
        lemma_digits_end_all(bytes, 1, d);
        lemma_digits_end_all(bytes, d + 1, n);
    }
    assert(number_end(bytes, 1) == n);
    let st = scan_step(bytes, 0, 1);
    assert(bytes.subrange(0, n) =~= bytes);
    let t = TokenV { ttype: TokenType::Number, lexeme: decode_utf8(bytes), literal: Option::None, line: 1 };
    assert(st.item == ScanItem::Emit(t) && st.next == n && st.line == 1);
    let toks = Seq::<TokenV>::empty().push(t);
    let errs = Seq::<ScannerError>::empty();
    assert(scan_from(bytes, n, 1, toks, errs) == (
        toks.push(TokenV { ttype: TokenType::Eof, lexeme: Seq::empty(), literal: Option::None, line: 1 }),
        errs,
    ));
    assert(scan_spec(bytes) == scan_from(bytes, n, 1, toks, errs));
    assert(toks.push(TokenV { ttype: TokenType::Eof, lexeme: Seq::empty(), literal: Option::None, line: 1 }) =~= seq![
        t,
        TokenV { ttype: TokenType::Eof, lexeme: Seq::empty(), literal: Option::None, line: 1 },
    ]);
}

/// Printing a number literal scanned from a number lexeme, then scanning
/// and parsing the printed text, yields the same literal back, and its
/// printed text encodes to the very bytes the lexeme came from. Together
/// with the boolean and nil cases this is the whole print/parse round trip
/// that the expression grammar admits.
pub proof fn lemma_number_print_parse_round_trip(bytes: Seq<u8>, d: int)
    requires
        1 <= d <= bytes.len(),
        forall|k: int| 0 <= k < d ==> is_digit_byte(#[trigger] bytes[k]),
        d == bytes.len() || (bytes[d] == 46 && d + 1 < bytes.len() && (forall|k: int|
            d + 1 <= k < bytes.len() ==> is_digit_byte(#[trigger] bytes[k]))),
    ensures
        ({
            let value = LiteralV::Number(decode_utf8(bytes));
            let (ts, es) = scan_spec(bytes);
            &&& es.len() == 0
            &&& tokens_wf(ts)
            &&& (p_expression(ts, 0) matches Ok(p) && p.0 == (ExprV::Literal { value }))
            &&& encode_utf8(spec_print(ExprV::Literal { value })) == bytes
        }),
{
    assert(forall|k: int| 0 <= k < bytes.len() ==> #[trigger] bytes[k] < 0x80);
    lemma_ascii_decode(bytes);
    decode_utf8_encode_utf8(bytes);
    lemma_scan_number(bytes, d);
    let value = LiteralV::Number(decode_utf8(bytes));
    let (ts, es) = scan_spec(bytes);
    assert(ts[0].ttype == TokenType::Number && ts[0].lexeme == decode_utf8(bytes) && ts[1].ttype
        == TokenType::Eof);
    lemma_parse_single_literal(ts, value);
    assert(spec_print(ExprV::Literal { value }) == decode_utf8(bytes));
}

/// The ASCII bytes whose characters spell the given text encode it.
proof fn lemma_ascii_encode(chars: Seq<char>, bytes: Seq<u8>)
    requires
        bytes.len() == chars.len(),
        forall|k: int| 0 <= k < bytes.len() ==> bytes[k] < 0x80,
        forall|k: int| 0 <= k < bytes.len() ==> chars[k] == ((#[trigger] bytes[k]) as char),
    ensures
        valid_utf8(bytes),
        decode_utf8(bytes) == chars,
        encode_utf8(chars) == bytes,
{
    lemma_ascii_decode(bytes);
    assert(decode_utf8(bytes) =~= chars);
    decode_utf8_encode_utf8(bytes);
}

/// Printing a boolean or nil literal and scanning and parsing the printed
/// text yields the same literal back. This is the part of the print/parse
/// round trip that the expression grammar admits: the printed form of any
/// compound node is prefix notation, which the grammar does not accept, and
/// a string literal prints as its raw contents, without quotes.
pub proof fn lemma_print_scan_parse_round_trip(value: LiteralV)
    requires
        (value matches LiteralV::Bool(_)) || value == LiteralV::Nil,
    ensures
        ({
            let src = encode_utf8(spec_print(ExprV::Literal { value }));
            let (ts, es) = scan_spec(src);
            &&& es.len() == 0
            &&& tokens_wf(ts)
            &&& (p_expression(ts, 0) matches Ok(p) && p.0 == (ExprV::Literal { value }))
        }),
{
    let chars = spec_print(ExprV::Literal { value });
    assert(chars == spec_render(value));
    let bytes = (match value {
        LiteralV::Bool(b) => if b {
            seq![116u8, 114u8, 117u8, 101u8]
        } else {
            seq![102u8, 97u8, 108u8, 115u8, 101u8]
        },
        _ => seq![110u8, 105u8, 108u8],
    });
    let tk = (match value {
        LiteralV::Bool(b) => if b {
            TokenType::True
        } else {
            TokenType::False
        },
        _ => TokenType::Nil,
    });
    match value {
        LiteralV::Bool(b) => {
            if b {
                reveal_strlit("true");
            } else {
                reveal_strlit("false");
            }
        },
        _ => {
            reveal_strlit("nil");
        },
    }
    assert(chars.len() == bytes.len());
    assert forall|k: int| 0 <= k < bytes.len() implies chars[k] == ((#[trigger] bytes[k]) as char)
        by {}
    lemma_ascii_encode(chars, bytes);
    assert(keyword_or_ident(bytes) == tk);
    lemma_scan_single_word(bytes, tk);
    let (ts, es) = scan_spec(bytes);
    assert(ts[0].ttype == tk && ts[0].lexeme == chars && ts[1].ttype == TokenType::Eof);
    lemma_parse_single_literal(ts, value);
}

} // verus!
