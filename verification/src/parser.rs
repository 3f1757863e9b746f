//! Statements, expressions and literals, and the parser that builds them
//! from tokens.

pub mod funcs;
pub mod grammar;

use crate::lexer::{Token, TokenView, Tokens};
use crate::parser::funcs::parse_program;
use crate::parser::grammar::{lemma_statements_from, parsed, ParseErrorView};
use vstd::prelude::*;
use vstd::string::*;

verus! {

/// A name written in the source.
#[derive(Debug, PartialEq)]
pub struct Ident(pub String);

impl View for Ident {
    type V = Seq<char>;

    open spec fn view(&self) -> Seq<char> {
        self.0@
    }
}

impl Ident {
    pub fn as_str(&self) -> (s: &str)
        ensures
            s@ == self@,
    {
        self.0.as_str()
    }

    /// A second identifier of the same name.
    pub fn duplicate(&self) -> (r: Ident)
        ensures
            r@ == self@,
    {
        Ident(self.0.clone())
    }
}

#[derive(Debug, PartialEq)]
pub enum Literal {
    IntegerLiteral(i64),
    StringLiteral(String),
    BytesLiteral(Vec<u8>),
    Reserved(Ident),
}

pub enum LiteralView {
    IntegerLiteral(i64),
    StringLiteral(Seq<char>),
    BytesLiteral(Seq<u8>),
    Reserved(Seq<char>),
}

impl View for Literal {
    type V = LiteralView;

    open spec fn view(&self) -> LiteralView {
        match self {
            Literal::IntegerLiteral(x) => LiteralView::IntegerLiteral(*x),
            Literal::StringLiteral(s) => LiteralView::StringLiteral(s@),
            Literal::BytesLiteral(b) => LiteralView::BytesLiteral(b@),
            Literal::Reserved(name) => LiteralView::Reserved(name@),
        }
    }
}

#[derive(Debug, PartialEq)]
pub enum Expr {
    /// A single literal, such as `42`, `"Hello"` or `null`.
    LiteralExpr(Literal),
    /// The arguments of an attribute that takes more than one.
    Group(Vec<Expr>),
}

pub enum ExprView {
    LiteralExpr(LiteralView),
    Group(Seq<ExprView>),
}

/// The view of an expression.
pub open spec fn expr_view(e: Expr) -> ExprView
    decreases e,
{
    match e {
        Expr::LiteralExpr(l) => ExprView::LiteralExpr(l@),
        Expr::Group(v) => ExprView::Group(
            Seq::new(
                v.len() as nat,
                |i: int|
                    if 0 <= i < v.len() {
                        expr_view(v[i])
                    } else {
                        arbitrary()
                    },
            ),
        ),
    }
}

impl View for Expr {
    type V = ExprView;

    open spec fn view(&self) -> ExprView {
        expr_view(*self)
    }
}

/// The view of a group holds the views of its members, in their order.
pub proof fn lemma_group_view(expr: &Expr)
    requires
        expr is Group,
    ensures
        expr@ matches ExprView::Group(s) && s.len() == expr->Group_0.len() && forall|i: int|
            0 <= i < s.len() ==> s[i] == (#[trigger] expr->Group_0[i])@,
{
}

#[derive(Debug, PartialEq)]
pub enum Statement {
    /// Creates a group and makes it the current one: `DEFINE cmd`.
    StartGroupDefinition(Ident),
    /// Starts the generator definition: `GENERATE cmd WITH`.
    StartGeneratorDefinition(Ident),
    /// Adds a field of the named kind to the current group: `u32 AS size`.
    DefineVariableField(String, Option<Ident>),
    /// Adds a constant field to the current group: `"BM" AS magic`.
    DefineConstField(Literal, Option<Ident>),
    /// Makes a field of the current group the current field: `size ->`.
    MakeCurrentField(Ident),
    /// Ends the program; stands behind the last statement of the source.
    Run,
    /// Starts the section that updates declared fields: `WHERE`.
    StartFieldsSection,
    /// Updates an attribute of the current field: `RANGE(0 10)`.
    UpdateField(Ident, Expr),
    /// Gives a parameter of the generator a value: `OUT_MAX = 42`.
    UpdateParam(Ident, Expr),
}

pub enum StatementView {
    StartGroupDefinition(Seq<char>),
    StartGeneratorDefinition(Seq<char>),
    DefineVariableField(Seq<char>, Option<Seq<char>>),
    DefineConstField(LiteralView, Option<Seq<char>>),
    MakeCurrentField(Seq<char>),
    Run,
    StartFieldsSection,
    UpdateField(Seq<char>, ExprView),
    UpdateParam(Seq<char>, ExprView),
}

/// The name that an optional identifier holds.
pub open spec fn alias_view(alias: Option<Ident>) -> Option<Seq<char>> {
    match alias {
        Some(name) => Some(name@),
        None => None,
    }
}

impl View for Statement {
    type V = StatementView;

    open spec fn view(&self) -> StatementView {
        match self {
            Statement::StartGroupDefinition(n) => StatementView::StartGroupDefinition(n@),
            Statement::StartGeneratorDefinition(n) => StatementView::StartGeneratorDefinition(n@),
            Statement::DefineVariableField(k, a) => StatementView::DefineVariableField(
                k@,
                alias_view(*a),
            ),
            Statement::DefineConstField(l, a) => StatementView::DefineConstField(
                l@,
                alias_view(*a),
            ),
            Statement::MakeCurrentField(n) => StatementView::MakeCurrentField(n@),
            Statement::Run => StatementView::Run,
            Statement::StartFieldsSection => StatementView::StartFieldsSection,
            Statement::UpdateField(n, e) => StatementView::UpdateField(n@, e@),
            Statement::UpdateParam(n, e) => StatementView::UpdateParam(n@, e@),
        }
    }
}

/// The statements of a program, in the order of the source.
#[derive(Debug, PartialEq)]
pub struct Program(pub Vec<Statement>);

/// The views of statements, one for one.
pub open spec fn statements_view(s: Seq<Statement>) -> Seq<StatementView> {
    Seq::new(s.len(), |i: int| s[i]@)
}

impl View for Program {
    type V = Seq<StatementView>;

    open spec fn view(&self) -> Seq<StatementView> {
        statements_view(self.0@)
    }
}

impl std::ops::Deref for Program {
    type Target = Vec<Statement>;

    fn deref(&self) -> (r: &Vec<Statement>)
        ensures
            r == &self.0,
    {
        &self.0
    }
}

impl std::ops::Deref for Ident {
    type Target = String;

    fn deref(&self) -> (r: &String)
        ensures
            r == &self.0,
    {
        &self.0
    }
}

impl From<Vec<Statement>> for Program {
    fn from(src: Vec<Statement>) -> (r: Program) {
        Program(src)
    }
}

impl vstd::std_specs::convert::FromSpecImpl<Vec<Statement>> for Program {
    open spec fn obeys_from_spec() -> bool {
        true
    }

    open spec fn from_spec(src: Vec<Statement>) -> Program {
        Program(src)
    }
}

impl From<&str> for Ident {
    fn from(ident: &str) -> (r: Ident)
        ensures
            r@ == ident@,
    {
        Ident(ident.to_owned())
    }
}

impl vstd::std_specs::convert::FromSpecImpl<&str> for Ident {
    open spec fn obeys_from_spec() -> bool {
        false
    }

    open spec fn from_spec(ident: &str) -> Ident {
        arbitrary()
    }
}

/// Where parsing failed: the position, the token there and the one behind
/// it.
#[derive(Clone, Copy, Debug, PartialEq)]
pub struct ParseError<'a> {
    pub position: usize,
    pub token: Option<&'a Token<'a>>,
    pub next: Option<&'a Token<'a>>,
}

impl<'a> View for ParseError<'a> {
    type V = ParseErrorView;

    open spec fn view(&self) -> ParseErrorView {
        ParseErrorView {
            position: self.position as int,
            token: match self.token {
                Some(t) => Some(t@),
                None => None,
            },
            next: match self.next {
                Some(t) => Some(t@),
                None => None,
            },
        }
    }
}

/// The view of what parsing returns.
pub open spec fn parse_view(r: Result<Program, ParseError>) -> Result<
    Seq<StatementView>,
    ParseErrorView,
> {
    match r {
        Ok(program) => Ok(program@),
        Err(e) => Err(e@),
    }
}

/// A program that was parsed ends with `Run`, which stands nowhere else in
/// it.
pub proof fn lemma_program_ends_with_run(ts: Seq<TokenView>)
    ensures
        parsed(ts) matches Ok(stmts) ==> stmts.len() >= 1 && stmts.last() is Run && forall|k: int|
            0 <= k < stmts.len() - 1 ==> !((#[trigger] stmts[k]) is Run),
{
    lemma_statements_from(ts, 0);
}

/// Parsing depends on the tokens alone: what is returned for the same
/// tokens twice is the same program, or the same failure.
pub proof fn lemma_parse_twice(
    ts: Seq<TokenView>,
    first: Result<Seq<StatementView>, ParseErrorView>,
    second: Result<Seq<StatementView>, ParseErrorView>,
)
    requires
        first == parsed(ts),
        second == parsed(ts),
    ensures
        first == second,
{
}

/// Parses the tokens of a source into a program: the statements in the
/// order of the source, and `Run` behind them. Parsing fails at the first
/// position where no statement starts and the end of input does not stand.
pub fn parse_tokens<'a>(tokens: Tokens<'a>) -> (r: Result<Program, ParseError<'a>>)
    ensures
        parse_view(r) == parsed(tokens@),
        r matches Ok(program) ==> program@.len() >= 1 && program@.last() is Run && forall|k: int|
            0 <= k < program@.len() - 1 ==> !((#[trigger] program@[k]) is Run),
{
    proof {
        lemma_program_ends_with_run(tokens@);
    }
    parse_program(tokens.tokens)
}

} // verus!
