//! Tokens, and the lexer that reads them from the source text.

pub mod funcs;
pub mod grammar;

use crate::lexer::funcs::{lex_token, lexeme_view};
use crate::lexer::grammar::{
    comment_end, lemma_lex_from_shape, lemma_lex_from_unfolds, lex, lex_from, separated_token_at,
};
use crate::text::{chars_of, scan_run, CharClass};
use vstd::prelude::*;
use vstd::string::*;

verus! {

/// Lexing never fails: a character that starts no token becomes a token
/// of its own.
#[derive(Clone, Copy, Debug, PartialEq, Eq)]
pub struct LexError;

#[derive(Clone, Debug, PartialEq)]
pub enum Token<'a> {
    Add,
    As,
    Assign,
    Bytes(Vec<u8>),
    Colon,
    Comma,
    Comment,
    Define,
    Eof,
    From,
    Generate,
    Ident(&'a str),
    Illegal(&'a str),
    IntegerLiteral(i64),
    LeftParen,
    Multiply,
    Reference,
    ReservedIdent(&'a str),
    RightArrow,
    RightParen,
    StringLiteral(&'a str),
    Subtract,
    Type(&'a str),
    TypeArray(&'a str, u32),
    Where,
    With,
}

/// The mathematical content of a [`Token`].
pub enum TokenView {
    Add,
    As,
    Assign,
    Bytes(Seq<u8>),
    Colon,
    Comma,
    Comment,
    Define,
    Eof,
    From,
    Generate,
    Ident(Seq<char>),
    Illegal(Seq<char>),
    IntegerLiteral(i64),
    LeftParen,
    Multiply,
    Reference,
    ReservedIdent(Seq<char>),
    RightArrow,
    RightParen,
    StringLiteral(Seq<char>),
    Subtract,
    Type(Seq<char>),
    TypeArray(Seq<char>, u32),
    Where,
    With,
}

impl<'a> View for Token<'a> {
    type V = TokenView;

    open spec fn view(&self) -> TokenView {
        match self {
            Token::Add => TokenView::Add,
            Token::As => TokenView::As,
            Token::Assign => TokenView::Assign,
            Token::Bytes(b) => TokenView::Bytes(b@),
            Token::Colon => TokenView::Colon,
            Token::Comma => TokenView::Comma,
            Token::Comment => TokenView::Comment,
            Token::Define => TokenView::Define,
            Token::Eof => TokenView::Eof,
            Token::From => TokenView::From,
            Token::Generate => TokenView::Generate,
            Token::Ident(s) => TokenView::Ident(s@),
            Token::Illegal(s) => TokenView::Illegal(s@),
            Token::IntegerLiteral(x) => TokenView::IntegerLiteral(*x),
            Token::LeftParen => TokenView::LeftParen,
            Token::Multiply => TokenView::Multiply,
            Token::Reference => TokenView::Reference,
            Token::ReservedIdent(s) => TokenView::ReservedIdent(s@),
            Token::RightArrow => TokenView::RightArrow,
            Token::RightParen => TokenView::RightParen,
            Token::StringLiteral(s) => TokenView::StringLiteral(s@),
            Token::Subtract => TokenView::Subtract,
            Token::Type(s) => TokenView::Type(s@),
            Token::TypeArray(s, n) => TokenView::TypeArray(s@, *n),
            Token::Where => TokenView::Where,
            Token::With => TokenView::With,
        }
    }
}

/// The views of tokens, one for one.
pub open spec fn tokens_view(tokens: Seq<Token>) -> Seq<TokenView> {
    Seq::new(tokens.len(), |i: int| tokens[i]@)
}

/// Passes the blank characters at `pos` and, where a `#` follows, the
/// rest of its line.
pub fn comment_to_eol(src: &Vec<char>, pos: usize) -> (r: Option<usize>)
    requires
        pos <= src.len(),
    ensures
        match r {
            Some(next) => comment_end(src@, pos as int) == Some(next as int) && next <= src.len(),
            None => comment_end(src@, pos as int) is None,
        },
{
    let at = scan_run(src, pos, CharClass::Space);
    if at < src.len() && src[at] == '#' {
        Some(scan_run(src, at + 1, CharClass::NotNewline))
    } else {
        None
    }
}

/// Reads the token behind the blank characters at `pos`, and passes the
/// blank characters behind it.
pub fn space_separated_token<'a>(input: &'a str, src: &Vec<char>, pos: usize) -> (r: Option<
    (Token<'a>, usize),
>)
    requires
        src@ == input@,
        pos <= src.len(),
    ensures
        lexeme_view(r) == separated_token_at(src@, pos as int),
        r matches Some((_, next)) ==> next <= src.len(),
{
    let at = scan_run(src, pos, CharClass::Space);
    if at < src.len() {
        let (token, end) = lex_token(input, src, at);
        Some((token, scan_run(src, end, CharClass::Space)))
    } else {
        None
    }
}

/// Reads the tokens of a source text. The result is never an error; its
/// last token, and no other, is the end of input, and it holds no comment.
pub fn lex_tokens<'a>(input: &'a str) -> (r: Result<Vec<Token<'a>>, LexError>)
    ensures
        r matches Ok(tokens) && tokens_view(tokens@) == lex(input@),
        r matches Ok(tokens) && tokens@.len() >= 1 && tokens@.last()@ is Eof,
        r matches Ok(tokens) && forall|k: int|
            0 <= k < tokens@.len() - 1 ==> !((#[trigger] tokens@[k])@ is Eof),
        r matches Ok(tokens) && forall|k: int|
            0 <= k < tokens@.len() ==> !((#[trigger] tokens@[k])@ is Comment),
{
    let src = chars_of(input);
    let mut tokens: Vec<Token<'a>> = Vec::new();
    let mut pos: usize = 0;
    loop
        invariant_except_break
            pos <= src.len(),
            src@ == input@,
            tokens_view(tokens@) + lex_from(src@, pos as int) == lex(src@),
        ensures
            src@ == input@,
            tokens_view(tokens@) + seq![TokenView::Eof] == lex(src@),
        decreases src.len() - pos,
    {
        proof {
            lemma_lex_from_unfolds(src@, pos as int);
        }
        match comment_to_eol(&src, pos) {
            Some(next) => {
                pos = next;
            },
            None => match space_separated_token(input, &src, pos) {
                Some((token, next)) => {
                    let ghost before = tokens_view(tokens@);
                    tokens.push(token);
                    assert(tokens_view(tokens@) =~= before + seq![token@]);
                    assert((before + seq![token@]) + lex_from(src@, next as int) =~= before + (
                    seq![token@] + lex_from(src@, next as int)));
                    pos = next;
                },
                None => {
                    break ;
                },
            },
        }
    }
    let ghost before = tokens_view(tokens@);
    tokens.push(Token::Eof);
    proof {
        assert(tokens_view(tokens@) =~= before + seq![TokenView::Eof]);
        lemma_lex_from_shape(src@, 0);
        let all = lex(src@);
        assert forall|k: int| 0 <= k < tokens@.len() implies (#[trigger] tokens@[k])@ == all[k] by {
            assert(tokens_view(tokens@)[k] == tokens@[k]@);
        }
    }
    Ok(tokens)
}

/// The lexer under the name of a type.
pub struct Lexer;

impl Lexer {
    /// Reads the tokens of a source text, as [`lex_tokens`] does.
    pub fn lex_tokens<'a>(input: &'a str) -> (r: Result<Vec<Token<'a>>, LexError>)
        ensures
            r matches Ok(tokens) && tokens_view(tokens@) == lex(input@),
    {
        lex_tokens(input)
    }
}

/// A window on an array of tokens, as the parser walks it.
#[derive(Clone, Copy, Debug, PartialEq)]
pub struct Tokens<'a> {
    /// The tokens of the window.
    pub tokens: &'a [Token<'a>],
    /// The sum of the positions at which the slices behind this window
    /// started.
    pub start: usize,
    /// The sum of the positions at which they ended.
    pub end: usize,
}

impl<'a> View for Tokens<'a> {
    type V = Seq<TokenView>;

    open spec fn view(&self) -> Seq<TokenView> {
        tokens_view(self.tokens@)
    }
}

impl<'a> Tokens<'a> {
    pub fn new(tokens: &'a [Token<'a>]) -> (r: Self)
        ensures
            r.tokens@ == tokens@,
            r.start == 0,
            r.end == 0,
    {
        Tokens { tokens, start: 0, end: 0 }
    }

    /// The number of tokens in the window.
    pub fn input_len(&self) -> (n: usize)
        ensures
            n == self@.len(),
    {
        self.tokens.len()
    }

    /// The first `count` tokens.
    pub fn take(&self, count: usize) -> (r: Self)
        requires
            count <= self@.len(),
        ensures
            r.tokens@ == self.tokens@.subrange(0, count as int),
            r.start == 0,
            r.end == count,
    {
        Tokens { tokens: &self.tokens[0..count], start: 0, end: count }
    }

    /// The tokens behind the first `count`, and the first `count`.
    pub fn take_split(&self, count: usize) -> (r: (Self, Self))
        requires
            count <= self@.len(),
        ensures
            r.0.tokens@ == self.tokens@.subrange(count as int, self.tokens@.len() as int),
            r.1.tokens@ == self.tokens@.subrange(0, count as int),
            r.0.start == 0 && r.0.end == self@.len() - count,
            r.1.start == 0 && r.1.end == count,
    {
        let n = self.tokens.len();
        let x = &self.tokens[0..count];
        let y = &self.tokens[count..n];
        (
            Tokens { tokens: y, start: 0, end: n - count },
            Tokens { tokens: x, start: 0, end: count },
        )
    }

    /// The tokens from `from` up to `to`.
    pub fn slice(&self, from: usize, to: usize) -> (r: Self)
        requires
            from <= to <= self@.len(),
            self.start + from <= usize::MAX,
            self.end + to <= usize::MAX,
        ensures
            r.tokens@ == self.tokens@.subrange(from as int, to as int),
            r.start == self.start + from,
            r.end == self.end + to,
    {
        Tokens { tokens: &self.tokens[from..to], start: self.start + from, end: self.end + to }
    }

    /// The position behind `count` tokens, where the window holds as many.
    pub fn slice_index(&self, count: usize) -> (r: Option<usize>)
        ensures
            r == if count <= self@.len() {
                Some(count)
            } else {
                None
            },
    {
        if self.tokens.len() >= count {
            Some(count)
        } else {
            None
        }
    }
}

} // verus!
