//! Character classes and small text utilities shared by all stages.

use vstd::prelude::*;
use vstd::string::*;
use vstd::utf8::*;

verus! {

/// Blank characters that separate tokens.
pub open spec fn is_space(c: char) -> bool {
    c == ' ' || c == '\t' || c == '\n' || c == '\r'
}

pub open spec fn is_letter(c: char) -> bool {
    ('a' <= c && c <= 'z') || ('A' <= c && c <= 'Z')
}

pub open spec fn is_digit(c: char) -> bool {
    '0' <= c && c <= '9'
}

/// Characters that may follow the first letter of a word.
pub open spec fn is_word_char(c: char) -> bool {
    is_letter(c) || is_digit(c) || c == '_'
}

pub open spec fn is_hex_digit(c: char) -> bool {
    is_digit(c) || ('a' <= c && c <= 'f') || ('A' <= c && c <= 'F')
}

/// Value of a decimal digit.
pub open spec fn digit_value(c: char) -> int {
    c as int - '0' as int
}

/// Value of a hexadecimal digit.
pub open spec fn hex_value(c: char) -> int {
    if is_digit(c) {
        c as int - '0' as int
    } else if 'a' <= c && c <= 'f' {
        c as int - 'a' as int + 10
    } else {
        c as int - 'A' as int + 10
    }
}

/// ASCII upper case of one character.
pub open spec fn upper(c: char) -> char {
    if 'a' <= c && c <= 'z' {
        ((c as u8) - 32) as char
    } else {
        c
    }
}

pub open spec fn uppered(s: Seq<char>) -> Seq<char> {
    Seq::new(s.len(), |i: int| upper(s[i]))
}

/// The number that a run of decimal digits denotes.
pub open spec fn decimal(s: Seq<char>) -> nat
    decreases s.len(),
{
    if s.len() == 0 {
        0
    } else {
        (decimal(s.drop_last()) * 10 + digit_value(s.last())) as nat
    }
}

/// The classes of characters that the scanner follows.
#[derive(Clone, Copy, Debug, PartialEq, Eq)]
pub enum CharClass {
    Space,
    Word,
    Digit,
    NotNewline,
    NotQuote,
    NotBacktick,
}

pub open spec fn holds(class: CharClass, c: char) -> bool {
    match class {
        CharClass::Space => is_space(c),
        CharClass::Word => is_word_char(c),
        CharClass::Digit => is_digit(c),
        CharClass::NotNewline => c != '\n',
        CharClass::NotQuote => c != '"',
        CharClass::NotBacktick => c != '`',
    }
}

/// The first position at or after `i` whose character is not in `class`,
/// or the length of `s` where every character from `i` on is in it.
pub open spec fn run_end(s: Seq<char>, i: int, class: CharClass) -> int
    decreases s.len() - i,
{
    if 0 <= i < s.len() && holds(class, s[i]) {
        run_end(s, i + 1, class)
    } else {
        i
    }
}

pub proof fn lemma_run_end(s: Seq<char>, i: int, class: CharClass)
    requires
        0 <= i <= s.len(),
    ensures
        i <= run_end(s, i, class) <= s.len(),
        forall|k: int| i <= k < run_end(s, i, class) ==> holds(class, #[trigger] s[k]),
        run_end(s, i, class) < s.len() ==> !holds(class, s[run_end(s, i, class)]),
    decreases s.len() - i,
{
    if i < s.len() && holds(class, s[i]) {
        lemma_run_end(s, i + 1, class);
    }
}

pub proof fn lemma_decimal_grows(s: Seq<char>, k: int)
    requires
        0 <= k <= s.len(),
        forall|i: int| 0 <= i < s.len() ==> is_digit(#[trigger] s[i]),
    ensures
        decimal(s.subrange(0, k)) <= decimal(s),
    decreases s.len() - k,
{
    if k < s.len() {
        let t = s.drop_last();
        assert(t.subrange(0, k) =~= s.subrange(0, k));
        lemma_decimal_grows(t, k);
    } else {
        assert(s.subrange(0, k) =~= s);
    }
}

pub fn space(c: char) -> (r: bool)
    ensures
        r == is_space(c),
{
    c == ' ' || c == '\t' || c == '\n' || c == '\r'
}

pub fn letter(c: char) -> (r: bool)
    ensures
        r == is_letter(c),
{
    (c >= 'a' && c <= 'z') || (c >= 'A' && c <= 'Z')
}

pub fn digit(c: char) -> (r: bool)
    ensures
        r == is_digit(c),
{
    c >= '0' && c <= '9'
}

pub fn hex_digit(c: char) -> (r: bool)
    ensures
        r == is_hex_digit(c),
{
    digit(c) || (c >= 'a' && c <= 'f') || (c >= 'A' && c <= 'F')
}

pub fn hex_digit_value(c: char) -> (r: u8)
    requires
        is_hex_digit(c),
    ensures
        r == hex_value(c),
        r < 16,
{
    if digit(c) {
        (c as u8) - 48u8
    } else if c >= 'a' && c <= 'f' {
        (c as u8) - 87u8
    } else {
        (c as u8) - 55u8
    }
}

pub fn to_upper(c: char) -> (r: char)
    ensures
        r == upper(c),
{
    if c >= 'a' && c <= 'z' {
        ((c as u8) - 32u8) as char
    } else {
        c
    }
}

pub fn in_class(class: CharClass, c: char) -> (r: bool)
    ensures
        r == holds(class, c),
{
    match class {
        CharClass::Space => space(c),
        CharClass::Word => letter(c) || digit(c) || c == '_',
        CharClass::Digit => digit(c),
        CharClass::NotNewline => c != '\n',
        CharClass::NotQuote => c != '"',
        CharClass::NotBacktick => c != '`',
    }
}

/// Follows the characters of `class` from `start` on.
pub fn scan_run(src: &Vec<char>, start: usize, class: CharClass) -> (end: usize)
    requires
        start <= src.len(),
    ensures
        end == run_end(src@, start as int, class),
        start <= end <= src.len(),
{
    let mut j: usize = start;
    while j < src.len() && in_class(class, src[j])
        invariant
            start <= j <= src.len(),
            run_end(src@, start as int, class) == run_end(src@, j as int, class),
        decreases src.len() - j,
    {
        j += 1;
    }
    j
}

/// The characters of a string slice.
pub fn chars_of(s: &str) -> (v: Vec<char>)
    ensures
        v@ == s@,
{
    let mut v: Vec<char> = Vec::new();
    for c in it: s.chars()
        invariant
            v@ == s@.subrange(0, it.index() as int),
            it.seq() == s@,
    {
        v.push(c);
    }
    v
}

/// A string of its own with the characters of a slice.
pub fn owned(s: &str) -> (r: String)
    ensures
        r@ == s@,
{
    s.to_owned()
}

/// Whether two string slices hold the same characters.
pub fn same_text(a: &str, b: &str) -> (r: bool)
    ensures
        r == (a@ == b@),
{
    let x = a.as_bytes();
    let y = b.as_bytes();
    if x.len() != y.len() {
        return false;
    }
    let mut i: usize = 0;
    while i < x.len()
        invariant
            i <= x.len(),
            x.len() == y.len(),
            x@ == encode_utf8(a@),
            y@ == encode_utf8(b@),
            forall|k: int| 0 <= k < i ==> x@[k] == y@[k],
        decreases x.len() - i,
    {
        if x[i] != y[i] {
            return false;
        }
        i += 1;
    }
    proof {
        assert(x@ =~= y@);
        encode_utf8_decode_utf8(a@);
        encode_utf8_decode_utf8(b@);
    }
    true
}

/// Whether two sequences of characters are the same but for the case of
/// their ASCII letters.
pub fn same_chars_ignoring_case(a: &Vec<char>, from: usize, to: usize, b: &Vec<char>) -> (r: bool)
    requires
        from <= to <= a.len(),
    ensures
        r == (uppered(a@.subrange(from as int, to as int)) == uppered(b@)),
{
    let ghost x = uppered(a@.subrange(from as int, to as int));
    let ghost y = uppered(b@);
    if to - from != b.len() {
        assert(x.len() != y.len());
        return false;
    }
    let mut i: usize = 0;
    while i < b.len()
        invariant
            i <= b.len(),
            from <= to <= a.len(),
            to - from == b.len(),
            x == uppered(a@.subrange(from as int, to as int)),
            y == uppered(b@),
            forall|k: int| 0 <= k < i ==> x[k] == y[k],
        decreases b.len() - i,
    {
        if to_upper(a[from + i]) != to_upper(b[i]) {
            assert(x[i as int] != y[i as int]);
            return false;
        }
        i += 1;
    }
    assert(x =~= y);
    true
}

/// Whether two string slices are the same but for the case of their ASCII
/// letters.
pub fn same_text_ignoring_case(a: &str, b: &str) -> (r: bool)
    ensures
        r == (uppered(a@) == uppered(b@)),
{
    let x = chars_of(a);
    let y = chars_of(b);
    assert(x@.subrange(0, x.len() as int) =~= x@);
    same_chars_ignoring_case(&x, 0, x.len(), &y)
}

/// Reads the decimal digits of `src` from `from` to `to`, as far as the
/// number stays within `limit`.
pub fn read_decimal(src: &Vec<char>, from: usize, to: usize, limit: u128) -> (r: Option<u128>)
    requires
        from <= to <= src.len(),
        forall|k: int| from <= k < to ==> is_digit(#[trigger] src@[k]),
        limit <= 0x1_0000_0000_0000_0000u128,
    ensures
        match r {
            Some(v) => v == decimal(src@.subrange(from as int, to as int)) && v <= limit,
            None => decimal(src@.subrange(from as int, to as int)) > limit,
        },
{
    let ghost digits = src@.subrange(from as int, to as int);
    let mut value: u128 = 0;
    let mut i: usize = from;
    while i < to
        invariant
            from <= i <= to <= src.len(),
            digits == src@.subrange(from as int, to as int),
            forall|k: int| from <= k < to ==> is_digit(#[trigger] src@[k]),
            value == decimal(digits.subrange(0, i - from)),
            value <= limit,
            limit <= 0x1_0000_0000_0000_0000u128,
        decreases to - i,
    {
        let d: u128 = ((src[i] as u8) - 48u8) as u128;
        let next: u128 = value * 10 + d;
        proof {
            let p = digits.subrange(0, i - from + 1);
            assert(p.drop_last() =~= digits.subrange(0, i - from));
            assert(p.last() == src@[i as int]);
            assert(next == decimal(p));
            lemma_decimal_grows(digits, i - from + 1);
        }
        if next > limit {
            return None;
        }
        value = next;
        i += 1;
    }
    proof {
        assert(digits.subrange(0, to - from) =~= digits);
    }
    Some(value)
}

/// Whether the characters of `src` from `from` to `to` spell `word`, but
/// for the case of the letters.
pub fn spells(src: &Vec<char>, from: usize, to: usize, word: &str) -> (r: bool)
    requires
        from <= to <= src.len(),
    ensures
        r == (uppered(src@.subrange(from as int, to as int)) == uppered(word@)),
{
    let ghost x = uppered(src@.subrange(from as int, to as int));
    let ghost y = uppered(word@);
    if word.unicode_len() != to - from {
        assert(x.len() != y.len());
        return false;
    }
    let mut k: usize = 0;
    for c in it: word.chars()
        invariant
            it.seq() == word@,
            k == it.index(),
            from <= to <= src.len(),
            to - from == word@.len(),
            x == uppered(src@.subrange(from as int, to as int)),
            y == uppered(word@),
            forall|j: int| 0 <= j < k ==> x[j] == y[j],
    {
        if to_upper(src[from + k]) != to_upper(c) {
            assert(x[k as int] != y[k as int]);
            return false;
        }
        k += 1;
    }
    assert(x =~= y);
    true
}

} // verus!
