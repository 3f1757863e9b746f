//! What the lexer reads at a position of the source: the rules for each
//! kind of token, in the order in which they are tried.

use crate::lexer::TokenView;
use crate::text::{
    decimal, hex_value, is_hex_digit, is_letter, lemma_run_end, run_end, uppered, CharClass,
};
use vstd::prelude::*;

verus! {

/// A token and the position behind it.
pub type Lexeme = Option<(TokenView, int)>;

/// Whether two words are the same but for the case of their letters.
pub open spec fn same_word(a: Seq<char>, b: Seq<char>) -> bool {
    uppered(a) == uppered(b)
}

/// Whether the text between two backticks is a list of bytes: pairs of
/// hexadecimal digits with one space between a pair and the next.
pub open spec fn is_hex_bytes(c: Seq<char>) -> bool {
    &&& c.len() % 3 == 2
    &&& forall|k: int|
        0 <= k < c.len() ==> if k % 3 == 2 {
            #[trigger] c[k] == ' '
        } else {
            is_hex_digit(c[k])
        }
}

/// The bytes that such a text lists.
pub open spec fn hex_bytes(c: Seq<char>) -> Seq<u8> {
    Seq::new(
        ((c.len() + 1) / 3) as nat,
        |k: int| (hex_value(c[3 * k]) * 16 + hex_value(c[3 * k + 1])) as u8,
    )
}

/// A string literal: a double quote, one character or more that are no
/// double quote, and a double quote.
pub open spec fn string_at(s: Seq<char>, i: int) -> Lexeme {
    let close = run_end(s, i + 1, CharClass::NotQuote);
    if s[i] == '"' && i + 1 < close && close < s.len() {
        Some((TokenView::StringLiteral(s.subrange(i + 1, close)), close + 1))
    } else {
        None
    }
}

/// A byte sequence: a list of bytes between two backticks.
pub open spec fn bytes_at(s: Seq<char>, i: int) -> Lexeme {
    let close = run_end(s, i + 1, CharClass::NotBacktick);
    if s[i] == '`' && i + 1 < close && close < s.len() && is_hex_bytes(s.subrange(i + 1, close)) {
        Some((TokenView::Bytes(hex_bytes(s.subrange(i + 1, close))), close + 1))
    } else {
        None
    }
}

/// The end of the word that starts at `i` with a letter.
pub open spec fn word_end(s: Seq<char>, i: int) -> int {
    run_end(s, i + 1, CharClass::Word)
}

/// An array type: a word, and between square brackets its size, a run of
/// digits that fits 32 bits. A minus sign before the digits is read and
/// ignored.
pub open spec fn array_type_at(s: Seq<char>, i: int) -> Lexeme {
    let open = word_end(s, i);
    let first = if open + 1 < s.len() && s[open + 1] == '-' {
        open + 2
    } else {
        open + 1
    };
    let close = run_end(s, first, CharClass::Digit);
    if is_letter(s[i]) && open < s.len() && s[open] == '[' && first < close && close < s.len()
        && s[close] == ']' && decimal(s.subrange(first, close)) <= u32::MAX {
        Some(
            (
                TokenView::TypeArray(s.subrange(i, open), decimal(s.subrange(first, close)) as u32),
                close + 1,
            ),
        )
    } else {
        None
    }
}

/// Whether a word names a type, in any case.
pub open spec fn is_type_name(w: Seq<char>) -> bool {
    ||| same_word(w, "i8"@)
    ||| same_word(w, "i16"@)
    ||| same_word(w, "i32"@)
    ||| same_word(w, "i64"@)
    ||| same_word(w, "u8"@)
    ||| same_word(w, "u16"@)
    ||| same_word(w, "u32"@)
    ||| same_word(w, "u64"@)
    ||| same_word(w, "le_u16"@)
    ||| same_word(w, "le_u32"@)
    ||| same_word(w, "le_u64"@)
    ||| same_word(w, "le_i16"@)
    ||| same_word(w, "le_i32"@)
    ||| same_word(w, "le_i64"@)
    ||| same_word(w, "be_u16"@)
    ||| same_word(w, "be_u32"@)
    ||| same_word(w, "be_u64"@)
    ||| same_word(w, "be_i16"@)
    ||| same_word(w, "be_i32"@)
    ||| same_word(w, "be_i64"@)
    ||| same_word(w, "bytes"@)
    ||| same_word(w, "ref"@)
    ||| same_word(w, "string"@)
}

/// The token that a word stands for: a type under the spelling of the
/// source, a reserved identifier in upper case, a keyword, or an
/// identifier under the spelling of the source.
pub open spec fn word_token(w: Seq<char>) -> TokenView {
    if is_type_name(w) {
        TokenView::Type(w)
    } else if same_word(w, "null"@) {
        TokenView::ReservedIdent("NULL"@)
    } else if same_word(w, "lf"@) {
        TokenView::ReservedIdent("LF"@)
    } else if same_word(w, "as"@) {
        TokenView::As
    } else if same_word(w, "define"@) {
        TokenView::Define
    } else if same_word(w, "from"@) {
        TokenView::From
    } else if same_word(w, "generate"@) {
        TokenView::Generate
    } else if same_word(w, "where"@) {
        TokenView::Where
    } else if same_word(w, "with"@) {
        TokenView::With
    } else {
        TokenView::Ident(w)
    }
}

/// A word: a letter, then letters, digits and underscores.
pub open spec fn word_at(s: Seq<char>, i: int) -> Lexeme {
    if is_letter(s[i]) {
        Some((word_token(s.subrange(i, word_end(s, i))), word_end(s, i)))
    } else {
        None
    }
}

/// An integer: a run of digits, with or without a minus sign before it,
/// that denotes a number of 64 bits with sign.
pub open spec fn integer_at(s: Seq<char>, i: int) -> Lexeme {
    let first = if s[i] == '-' {
        i + 1
    } else {
        i
    };
    let end = run_end(s, first, CharClass::Digit);
    let magnitude = decimal(s.subrange(first, end)) as int;
    let value = if s[i] == '-' {
        -magnitude
    } else {
        magnitude
    };
    if first < end && i64::MIN <= value <= i64::MAX {
        Some((TokenView::IntegerLiteral(value as i64), end))
    } else {
        None
    }
}

/// An operator; the arrow is tried before the minus sign.
pub open spec fn operator_at(s: Seq<char>, i: int) -> Lexeme {
    if s[i] == '=' {
        Some((TokenView::Assign, i + 1))
    } else if s[i] == '+' {
        Some((TokenView::Add, i + 1))
    } else if s[i] == '-' && i + 1 < s.len() && s[i + 1] == '>' {
        Some((TokenView::RightArrow, i + 2))
    } else if s[i] == '-' {
        Some((TokenView::Subtract, i + 1))
    } else if s[i] == '*' {
        Some((TokenView::Multiply, i + 1))
    } else {
        None
    }
}

pub open spec fn punctuation_at(s: Seq<char>, i: int) -> Lexeme {
    if s[i] == '(' {
        Some((TokenView::LeftParen, i + 1))
    } else if s[i] == ')' {
        Some((TokenView::RightParen, i + 1))
    } else if s[i] == ',' {
        Some((TokenView::Comma, i + 1))
    } else if s[i] == '$' {
        Some((TokenView::Reference, i + 1))
    } else if s[i] == ':' {
        Some((TokenView::Colon, i + 1))
    } else {
        None
    }
}

/// The sign that starts a comment.
pub open spec fn comment_at(s: Seq<char>, i: int) -> Lexeme {
    if s[i] == '#' {
        Some((TokenView::Comment, i + 1))
    } else {
        None
    }
}

/// A character that starts no token is a token of its own.
pub open spec fn illegal_at(s: Seq<char>, i: int) -> (TokenView, int) {
    (TokenView::Illegal(s.subrange(i, i + 1)), i + 1)
}

/// The token at `i`, where a character stands: the first of the rules
/// that reads one.
pub open spec fn token_at(s: Seq<char>, i: int) -> (TokenView, int) {
    if let Some(t) = string_at(s, i) {
        t
    } else if let Some(t) = bytes_at(s, i) {
        t
    } else if let Some(t) = array_type_at(s, i) {
        t
    } else if let Some(t) = word_at(s, i) {
        t
    } else if let Some(t) = integer_at(s, i) {
        t
    } else if let Some(t) = operator_at(s, i) {
        t
    } else if let Some(t) = punctuation_at(s, i) {
        t
    } else if let Some(t) = comment_at(s, i) {
        t
    } else {
        illegal_at(s, i)
    }
}

/// Every token takes one character or more, and none beyond the source.
pub proof fn lemma_token_advances(s: Seq<char>, i: int)
    requires
        0 <= i < s.len(),
    ensures
        i < token_at(s, i).1 <= s.len(),
        !(token_at(s, i).0 is Eof),
{
    lemma_run_end(s, i + 1, CharClass::NotQuote);
    lemma_run_end(s, i + 1, CharClass::NotBacktick);
    lemma_run_end(s, i + 1, CharClass::Word);
    let open = word_end(s, i);
    if open + 2 <= s.len() {
        lemma_run_end(s, open + 2, CharClass::Digit);
    }
    if open + 1 <= s.len() {
        lemma_run_end(s, open + 1, CharClass::Digit);
    }
    lemma_run_end(s, i + 1, CharClass::Digit);
    lemma_run_end(s, i, CharClass::Digit);
}

/// The tokens of the source from `i` on. Blank characters separate tokens;
/// a `#` hides the rest of its line; the end of the source gives the one
/// end-of-input token.
pub open spec fn lex_from(s: Seq<char>, i: int) -> Seq<TokenView>
    decreases s.len() - i,
{
    let at = run_end(s, i, CharClass::Space);
    if 0 <= i <= at < s.len() {
        if s[at] == '#' {
            proof {
                lemma_run_end(s, at + 1, CharClass::NotNewline);
            }
            lex_from(s, run_end(s, at + 1, CharClass::NotNewline))
        } else {
            proof {
                lemma_token_advances(s, at);
            }
            seq![token_at(s, at).0] + lex_from(s, token_at(s, at).1)
        }
    } else {
        seq![TokenView::Eof]
    }
}

/// The tokens of a source text.
pub open spec fn lex(s: Seq<char>) -> Seq<TokenView> {
    lex_from(s, 0)
}

/// The tokens of a source end with the end-of-input token, which stands
/// nowhere else, and hold no comment.
pub proof fn lemma_lex_from_shape(s: Seq<char>, i: int)
    requires
        0 <= i <= s.len(),
    ensures
        lex_from(s, i).len() >= 1,
        lex_from(s, i).last() is Eof,
        forall|k: int|
            0 <= k < lex_from(s, i).len() - 1 ==> !(#[trigger] lex_from(s, i)[k] is Eof),
        forall|k: int| 0 <= k < lex_from(s, i).len() ==> !(#[trigger] lex_from(s, i)[k] is Comment),
    decreases s.len() - i,
{
    let at = run_end(s, i, CharClass::Space);
    lemma_run_end(s, i, CharClass::Space);
    if at < s.len() {
        if s[at] == '#' {
            let next = run_end(s, at + 1, CharClass::NotNewline);
            lemma_run_end(s, at + 1, CharClass::NotNewline);
            lemma_lex_from_shape(s, next);
        } else {
            let (token, next) = token_at(s, at);
            lemma_token_advances(s, at);
            lemma_lex_from_shape(s, next);
            let rest = lex_from(s, next);
            let all = seq![token] + rest;
            assert(all == lex_from(s, i));
            assert(all.last() == rest.last());
            assert forall|k: int| 0 <= k < all.len() - 1 implies !(#[trigger] all[k] is Eof) by {
                if k > 0 {
                    assert(all[k] == rest[k - 1]);
                }
            }
            assert forall|k: int| 0 <= k < all.len() implies !(#[trigger] all[k] is Comment) by {
                if k > 0 {
                    assert(all[k] == rest[k - 1]);
                }
            }
        }
    }
}

/// The end of the comment that starts behind the blank characters at
/// `i`: the end of its line.
pub open spec fn comment_end(s: Seq<char>, i: int) -> Option<int> {
    let at = run_end(s, i, CharClass::Space);
    if at < s.len() && s[at] == '#' {
        Some(run_end(s, at + 1, CharClass::NotNewline))
    } else {
        None
    }
}

/// The token behind the blank characters at `i`, and the position behind
/// the blank characters that follow it.
pub open spec fn separated_token_at(s: Seq<char>, i: int) -> Lexeme {
    let at = run_end(s, i, CharClass::Space);
    if at < s.len() {
        Some((token_at(s, at).0, run_end(s, token_at(s, at).1, CharClass::Space)))
    } else {
        None
    }
}

/// Blank characters before a token change nothing.
pub proof fn lemma_lex_from_skips(s: Seq<char>, i: int)
    requires
        0 <= i <= s.len(),
    ensures
        lex_from(s, i) == lex_from(s, run_end(s, i, CharClass::Space)),
{
    lemma_run_end(s, i, CharClass::Space);
    let at = run_end(s, i, CharClass::Space);
    assert(run_end(s, at, CharClass::Space) == at);
}

/// How the tokens from `i` on start: with nothing where a comment stands,
/// with the next token otherwise, and with the end where neither stands.
pub proof fn lemma_lex_from_unfolds(s: Seq<char>, i: int)
    requires
        0 <= i <= s.len(),
    ensures
        match comment_end(s, i) {
            Some(next) => i < next <= s.len() && lex_from(s, i) == lex_from(s, next),
            None => match separated_token_at(s, i) {
                Some((token, next)) => i < next <= s.len() && lex_from(s, i) == seq![token]
                    + lex_from(s, next),
                None => lex_from(s, i) == seq![TokenView::Eof],
            },
        },
{
    lemma_run_end(s, i, CharClass::Space);
    let at = run_end(s, i, CharClass::Space);
    if at < s.len() {
        if s[at] == '#' {
            lemma_run_end(s, at + 1, CharClass::NotNewline);
        } else {
            lemma_token_advances(s, at);
            lemma_run_end(s, token_at(s, at).1, CharClass::Space);
            lemma_lex_from_skips(s, token_at(s, at).1);
        }
    }
}

} // verus!
