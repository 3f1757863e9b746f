//! The rules of the lexer, one function for each.

use crate::lexer::grammar::{
    array_type_at, bytes_at, comment_at, hex_bytes, illegal_at, integer_at, is_hex_bytes,
    is_type_name, operator_at, punctuation_at, string_at, token_at, word_at, Lexeme,
};
use crate::lexer::Token;
use crate::text::{
    hex_digit, hex_digit_value, hex_value, is_hex_digit, lemma_run_end, letter, read_decimal,
    scan_run, spells, CharClass,
};
use vstd::prelude::*;
use vstd::string::*;

verus! {

/// The view of what a rule read.
pub open spec fn lexeme_view(r: Option<(Token, usize)>) -> Lexeme {
    match r {
        Some((token, end)) => Some((token@, end as int)),
        None => None,
    }
}

/// Reads a string literal.
pub fn lex_string<'a>(input: &'a str, src: &Vec<char>, pos: usize) -> (r: Option<
    (Token<'a>, usize),
>)
    requires
        src@ == input@,
        pos < src.len(),
    ensures
        lexeme_view(r) == string_at(src@, pos as int),
{
    if src[pos] != '"' {
        return None;
    }
    let close = scan_run(src, pos + 1, CharClass::NotQuote);
    if close == pos + 1 || close >= src.len() {
        return None;
    }
    Some((Token::StringLiteral(input.substring_char(pos + 1, close)), close + 1))
}

/// Reads the bytes that the text from `from` to `to` lists.
fn read_hex_bytes(src: &Vec<char>, from: usize, to: usize) -> (r: Option<Vec<u8>>)
    requires
        from < to <= src.len(),
    ensures
        match r {
            Some(bytes) => is_hex_bytes(src@.subrange(from as int, to as int)) && bytes@
                == hex_bytes(src@.subrange(from as int, to as int)),
            None => !is_hex_bytes(src@.subrange(from as int, to as int)),
        },
{
    let ghost c = src@.subrange(from as int, to as int);
    let n = to - from;
    if n % 3 != 2 {
        return None;
    }
    let count = (n + 1) / 3;
    let mut bytes: Vec<u8> = Vec::new();
    let mut j: usize = 0;
    while j < count
        invariant
            from < to <= src.len(),
            c == src@.subrange(from as int, to as int),
            n == to - from,
            n % 3 == 2,
            count == (n + 1) / 3,
            j <= count,
            bytes.len() == j,
            forall|k: int|
                0 <= k < 3 * j && k < n ==> if k % 3 == 2 {
                    #[trigger] c[k] == ' '
                } else {
                    is_hex_digit(c[k])
                },
            forall|m: int|
                0 <= m < j ==> #[trigger] bytes@[m] == (hex_value(c[3 * m]) * 16
                    + hex_value(c[3 * m + 1])) as u8,
        decreases count - j,
    {
        let at = from + 3 * j;
        let high = src[at];
        let low = src[at + 1];
        if !hex_digit(high) {
            assert(c[3 * j as int] == high);
            assert(!is_hex_bytes(c));
            return None;
        }
        if !hex_digit(low) {
            assert(c[3 * j + 1] == low);
            assert(!is_hex_bytes(c));
            return None;
        }
        if at + 2 < to {
            if src[at + 2] != ' ' {
                assert(c[3 * j + 2] == src@[at + 2]);
                assert(!is_hex_bytes(c));
                return None;
            }
        }
        let value: u8 = hex_digit_value(high) * 16 + hex_digit_value(low);
        bytes.push(value);
        proof {
            assert(c[3 * j as int] == high);
            assert(c[3 * j + 1] == low);
            assert forall|k: int| 0 <= k < 3 * (j + 1) && k < n implies if k % 3 == 2 {
                #[trigger] c[k] == ' '
            } else {
                is_hex_digit(c[k])
            } by {
                if k >= 3 * j {
                    if k == 3 * j + 2 {
                        assert(c[k] == src@[at + 2]);
                    }
                }
            }
        }
        j += 1;
    }
    proof {
        assert(bytes@ =~= hex_bytes(c));
    }
    Some(bytes)
}

/// Reads a byte sequence.
pub fn lex_bytes<'a>(input: &'a str, src: &Vec<char>, pos: usize) -> (r: Option<(Token<'a>, usize)>)
    requires
        src@ == input@,
        pos < src.len(),
    ensures
        lexeme_view(r) == bytes_at(src@, pos as int),
{
    if src[pos] != '`' {
        return None;
    }
    let close = scan_run(src, pos + 1, CharClass::NotBacktick);
    if close == pos + 1 || close >= src.len() {
        return None;
    }
    match read_hex_bytes(src, pos + 1, close) {
        Some(bytes) => Some((Token::Bytes(bytes), close + 1)),
        None => None,
    }
}

/// Reads an array type.
pub fn lex_ident_array<'a>(input: &'a str, src: &Vec<char>, pos: usize) -> (r: Option<
    (Token<'a>, usize),
>)
    requires
        src@ == input@,
        pos < src.len(),
    ensures
        lexeme_view(r) == array_type_at(src@, pos as int),
{
    if !letter(src[pos]) {
        return None;
    }
    let open = scan_run(src, pos + 1, CharClass::Word);
    if open >= src.len() || src[open] != '[' {
        return None;
    }
    let first = if open + 1 < src.len() && src[open + 1] == '-' {
        open + 2
    } else {
        open + 1
    };
    let close = scan_run(src, first, CharClass::Digit);
    if first == close || close >= src.len() || src[close] != ']' {
        return None;
    }
    proof {
        lemma_run_end(src@, first as int, CharClass::Digit);
    }
    match read_decimal(src, first, close, 0xffff_ffff) {
        Some(size) => Some(
            (Token::TypeArray(input.substring_char(pos, open), size as u32), close + 1),
        ),
        None => None,
    }
}

/// Whether the word from `from` to `to` names a type.
fn names_type(src: &Vec<char>, from: usize, to: usize) -> (r: bool)
    requires
        from <= to <= src.len(),
    ensures
        r == is_type_name(src@.subrange(from as int, to as int)),
{
    spells(src, from, to, "i8") || spells(src, from, to, "i16") || spells(src, from, to, "i32")
        || spells(src, from, to, "i64") || spells(src, from, to, "u8") || spells(
        src,
        from,
        to,
        "u16",
    ) || spells(src, from, to, "u32") || spells(src, from, to, "u64") || spells(
        src,
        from,
        to,
        "le_u16",
    ) || spells(src, from, to, "le_u32") || spells(src, from, to, "le_u64") || spells(
        src,
        from,
        to,
        "le_i16",
    ) || spells(src, from, to, "le_i32") || spells(src, from, to, "le_i64") || spells(
        src,
        from,
        to,
        "be_u16",
    ) || spells(src, from, to, "be_u32") || spells(src, from, to, "be_u64") || spells(
        src,
        from,
        to,
        "be_i16",
    ) || spells(src, from, to, "be_i32") || spells(src, from, to, "be_i64") || spells(
        src,
        from,
        to,
        "bytes",
    ) || spells(src, from, to, "ref") || spells(src, from, to, "string")
}

/// Reads a word: a type, a reserved identifier, a keyword or an
/// identifier.
pub fn lex_ident<'a>(input: &'a str, src: &Vec<char>, pos: usize) -> (r: Option<(Token<'a>, usize)>)
    requires
        src@ == input@,
        pos < src.len(),
    ensures
        lexeme_view(r) == word_at(src@, pos as int),
{
    if !letter(src[pos]) {
        return None;
    }
    let end = scan_run(src, pos + 1, CharClass::Word);
    let token = if names_type(src, pos, end) {
        Token::Type(input.substring_char(pos, end))
    } else if spells(src, pos, end, "null") {
        Token::ReservedIdent("NULL")
    } else if spells(src, pos, end, "lf") {
        Token::ReservedIdent("LF")
    } else if spells(src, pos, end, "as") {
        Token::As
    } else if spells(src, pos, end, "define") {
        Token::Define
    } else if spells(src, pos, end, "from") {
        Token::From
    } else if spells(src, pos, end, "generate") {
        Token::Generate
    } else if spells(src, pos, end, "where") {
        Token::Where
    } else if spells(src, pos, end, "with") {
        Token::With
    } else {
        Token::Ident(input.substring_char(pos, end))
    };
    Some((token, end))
}

/// Reads an integer.
pub fn lex_integer<'a>(input: &'a str, src: &Vec<char>, pos: usize) -> (r: Option<
    (Token<'a>, usize),
>)
    requires
        src@ == input@,
        pos < src.len(),
    ensures
        lexeme_view(r) == integer_at(src@, pos as int),
{
    let negative = src[pos] == '-';
    let first = if negative {
        pos + 1
    } else {
        pos
    };
    let end = scan_run(src, first, CharClass::Digit);
    if first == end {
        return None;
    }
    proof {
        lemma_run_end(src@, first as int, CharClass::Digit);
    }
    let limit: u128 = if negative {
        0x8000_0000_0000_0000
    } else {
        0x7fff_ffff_ffff_ffff
    };
    match read_decimal(src, first, end, limit) {
        None => None,
        Some(magnitude) => {
            let value: i64 = if negative {
                (-(magnitude as i128)) as i64
            } else {
                magnitude as i64
            };
            Some((Token::IntegerLiteral(value), end))
        },
    }
}

/// Reads an operator.
pub fn lex_operator<'a>(input: &'a str, src: &Vec<char>, pos: usize) -> (r: Option<
    (Token<'a>, usize),
>)
    requires
        src@ == input@,
        pos < src.len(),
    ensures
        lexeme_view(r) == operator_at(src@, pos as int),
{
    let c = src[pos];
    if c == '=' {
        Some((Token::Assign, pos + 1))
    } else if c == '+' {
        Some((Token::Add, pos + 1))
    } else if c == '-' && pos + 1 < src.len() && src[pos + 1] == '>' {
        Some((Token::RightArrow, pos + 2))
    } else if c == '-' {
        Some((Token::Subtract, pos + 1))
    } else if c == '*' {
        Some((Token::Multiply, pos + 1))
    } else {
        None
    }
}

/// Reads a punctuation mark.
pub fn lex_punctuations<'a>(input: &'a str, src: &Vec<char>, pos: usize) -> (r: Option<
    (Token<'a>, usize),
>)
    requires
        src@ == input@,
        pos < src.len(),
    ensures
        lexeme_view(r) == punctuation_at(src@, pos as int),
{
    let c = src[pos];
    if c == '(' {
        Some((Token::LeftParen, pos + 1))
    } else if c == ')' {
        Some((Token::RightParen, pos + 1))
    } else if c == ',' {
        Some((Token::Comma, pos + 1))
    } else if c == '$' {
        Some((Token::Reference, pos + 1))
    } else if c == ':' {
        Some((Token::Colon, pos + 1))
    } else {
        None
    }
}

/// Reads the sign that starts a comment.
pub fn lex_comment<'a>(input: &'a str, src: &Vec<char>, pos: usize) -> (r: Option<
    (Token<'a>, usize),
>)
    requires
        src@ == input@,
        pos < src.len(),
    ensures
        lexeme_view(r) == comment_at(src@, pos as int),
{
    if src[pos] == '#' {
        Some((Token::Comment, pos + 1))
    } else {
        None
    }
}

/// Takes one character as a token of its own.
pub fn lex_illegal<'a>(input: &'a str, src: &Vec<char>, pos: usize) -> (r: (Token<'a>, usize))
    requires
        src@ == input@,
        pos < src.len(),
    ensures
        (r.0@, r.1 as int) == illegal_at(src@, pos as int),
{
    (Token::Illegal(input.substring_char(pos, pos + 1)), pos + 1)
}

/// Reads the token at `pos`.
pub fn lex_token<'a>(input: &'a str, src: &Vec<char>, pos: usize) -> (r: (Token<'a>, usize))
    requires
        src@ == input@,
        pos < src.len(),
    ensures
        (r.0@, r.1 as int) == token_at(src@, pos as int),
        pos < r.1 <= src.len(),
{
    proof {
        crate::lexer::grammar::lemma_token_advances(src@, pos as int);
    }
    if let Some(t) = lex_string(input, src, pos) {
        t
    } else if let Some(t) = lex_bytes(input, src, pos) {
        t
    } else if let Some(t) = lex_ident_array(input, src, pos) {
        t
    } else if let Some(t) = lex_ident(input, src, pos) {
        t
    } else if let Some(t) = lex_integer(input, src, pos) {
        t
    } else if let Some(t) = lex_operator(input, src, pos) {
        t
    } else if let Some(t) = lex_punctuations(input, src, pos) {
        t
    } else if let Some(t) = lex_comment(input, src, pos) {
        t
    } else {
        lex_illegal(input, src, pos)
    }
}

} // verus!
