//! The parser: one function for each rule of the grammar. A function reads
//! at a position of the tokens and gives what it read and the position
//! behind it, or nothing; it changes nothing, so that the next rule of a
//! choice reads at the same position.

use crate::lexer::{tokens_view, Token, TokenView};
use crate::parser::grammar::{
    alias_at, define_fields_at, define_generator_at, define_group_at, define_group_where_at,
    expr_at, expr_list_at, exprs_from, field_definition_at, ident_at, lemma_statement_advances,
    literal_at, more_attrs_from, parsed, req_attrs_at, set_param_at, single_attr_at,
    statement_at, statements_from, tag, type_at, update_attrs_at,
};
use crate::parser::{
    parse_view, statements_view, Expr, ExprView, Ident, Literal, ParseError, Program, Statement,
    StatementView,
};
use crate::text::owned;
use vstd::prelude::*;
use vstd::string::*;

verus! {

/// The views of the tokens of a slice.
pub open spec fn stream(tokens: &[Token]) -> Seq<TokenView> {
    tokens_view(tokens@)
}

/// The views of expressions, one for one.
pub open spec fn exprs_view(v: Seq<Expr>) -> Seq<ExprView> {
    Seq::new(v.len(), |i: int| v[i]@)
}

/// The view of what a rule read as statements.
pub open spec fn read_view(r: Option<(Vec<Statement>, usize)>) -> Option<
    (Seq<StatementView>, int),
> {
    match r {
        Some((stmts, next)) => Some((statements_view(stmts@), next as int)),
        None => None,
    }
}

pub fn as_tag<'a>(tokens: &[Token<'a>], pos: usize) -> (r: bool)
    ensures
        r == tag(stream(tokens), pos as int, TokenView::As),
        r ==> pos < tokens@.len() <= usize::MAX,
{
    pos < tokens.len() && matches!(&tokens[pos], Token::As)
}

pub fn assign_tag<'a>(tokens: &[Token<'a>], pos: usize) -> (r: bool)
    ensures
        r == tag(stream(tokens), pos as int, TokenView::Assign),
        r ==> pos < tokens@.len() <= usize::MAX,
{
    pos < tokens.len() && matches!(&tokens[pos], Token::Assign)
}

pub fn close_paren_tag<'a>(tokens: &[Token<'a>], pos: usize) -> (r: bool)
    ensures
        r == tag(stream(tokens), pos as int, TokenView::RightParen),
        r ==> pos < tokens@.len() <= usize::MAX,
{
    pos < tokens.len() && matches!(&tokens[pos], Token::RightParen)
}

pub fn comma_tag<'a>(tokens: &[Token<'a>], pos: usize) -> (r: bool)
    ensures
        r == tag(stream(tokens), pos as int, TokenView::Comma),
        r ==> pos < tokens@.len() <= usize::MAX,
{
    pos < tokens.len() && matches!(&tokens[pos], Token::Comma)
}

pub fn define_tag<'a>(tokens: &[Token<'a>], pos: usize) -> (r: bool)
    ensures
        r == tag(stream(tokens), pos as int, TokenView::Define),
        r ==> pos < tokens@.len() <= usize::MAX,
{
    pos < tokens.len() && matches!(&tokens[pos], Token::Define)
}

pub fn generate_tag<'a>(tokens: &[Token<'a>], pos: usize) -> (r: bool)
    ensures
        r == tag(stream(tokens), pos as int, TokenView::Generate),
        r ==> pos < tokens@.len() <= usize::MAX,
{
    pos < tokens.len() && matches!(&tokens[pos], Token::Generate)
}

pub fn eof_tag<'a>(tokens: &[Token<'a>], pos: usize) -> (r: bool)
    ensures
        r == tag(stream(tokens), pos as int, TokenView::Eof),
        r ==> pos < tokens@.len() <= usize::MAX,
{
    pos < tokens.len() && matches!(&tokens[pos], Token::Eof)
}

pub fn open_paren_tag<'a>(tokens: &[Token<'a>], pos: usize) -> (r: bool)
    ensures
        r == tag(stream(tokens), pos as int, TokenView::LeftParen),
        r ==> pos < tokens@.len() <= usize::MAX,
{
    pos < tokens.len() && matches!(&tokens[pos], Token::LeftParen)
}

pub fn right_arrow_tag<'a>(tokens: &[Token<'a>], pos: usize) -> (r: bool)
    ensures
        r == tag(stream(tokens), pos as int, TokenView::RightArrow),
        r ==> pos < tokens@.len() <= usize::MAX,
{
    pos < tokens.len() && matches!(&tokens[pos], Token::RightArrow)
}

pub fn where_tag<'a>(tokens: &[Token<'a>], pos: usize) -> (r: bool)
    ensures
        r == tag(stream(tokens), pos as int, TokenView::Where),
        r ==> pos < tokens@.len() <= usize::MAX,
{
    pos < tokens.len() && matches!(&tokens[pos], Token::Where)
}

pub fn with_tag<'a>(tokens: &[Token<'a>], pos: usize) -> (r: bool)
    ensures
        r == tag(stream(tokens), pos as int, TokenView::With),
        r ==> pos < tokens@.len() <= usize::MAX,
{
    pos < tokens.len() && matches!(&tokens[pos], Token::With)
}

pub fn parse_ident<'a>(tokens: &[Token<'a>], pos: usize) -> (r: Option<(Ident, usize)>)
    ensures
        match r {
            Some((name, next)) => ident_at(stream(tokens), pos as int) == Some(
                (name@, next as int),
            ) && next == pos + 1 && pos < tokens@.len(),
            None => ident_at(stream(tokens), pos as int) is None,
        },
{
    if pos >= tokens.len() {
        return None;
    }
    match &tokens[pos] {
        Token::Ident(x) => Some((Ident(owned(*x)), pos + 1)),
        _ => None,
    }
}

pub fn parse_type<'a>(tokens: &[Token<'a>], pos: usize) -> (r: Option<(String, usize)>)
    ensures
        match r {
            Some((name, next)) => type_at(stream(tokens), pos as int) == Some((name@, next as int))
                && next == pos + 1 && pos < tokens@.len(),
            None => type_at(stream(tokens), pos as int) is None,
        },
{
    if pos >= tokens.len() {
        return None;
    }
    match &tokens[pos] {
        Token::Type(name) => Some((owned(*name), pos + 1)),
        _ => None,
    }
}

pub fn parse_literal<'a>(tokens: &[Token<'a>], pos: usize) -> (r: Option<(Literal, usize)>)
    ensures
        match r {
            Some((literal, next)) => literal_at(stream(tokens), pos as int) == Some(
                (literal@, next as int),
            ) && next == pos + 1 && pos < tokens@.len(),
            None => literal_at(stream(tokens), pos as int) is None,
        },
{
    if pos >= tokens.len() {
        return None;
    }
    match &tokens[pos] {
        Token::IntegerLiteral(x) => Some((Literal::IntegerLiteral(*x), pos + 1)),
        Token::StringLiteral(x) => Some((Literal::StringLiteral(owned(*x)), pos + 1)),
        Token::Bytes(x) => {
            let bytes = x.clone();
            assert(bytes@ =~= x@);
            Some((Literal::BytesLiteral(bytes), pos + 1))
        },
        Token::ReservedIdent(x) => Some((Literal::Reserved(Ident(owned(*x))), pos + 1)),
        _ => None,
    }
}

pub fn parse_expr<'a>(tokens: &[Token<'a>], pos: usize) -> (r: Option<(Expr, usize)>)
    ensures
        match r {
            Some((e, next)) => expr_at(stream(tokens), pos as int) == Some((e@, next as int))
                && next == pos + 1 && pos < tokens@.len(),
            None => expr_at(stream(tokens), pos as int) is None,
        },
{
    match parse_literal(tokens, pos) {
        Some((literal, next)) => Some((Expr::LiteralExpr(literal), next)),
        None => None,
    }
}

/// Reads the arguments of an attribute: one expression or more.
pub fn new_parse_expr_list<'a>(tokens: &[Token<'a>], pos: usize) -> (r: Option<(Expr, usize)>)
    ensures
        match r {
            Some((e, next)) => expr_list_at(stream(tokens), pos as int) == Some(
                (e@, next as int),
            ) && pos < next <= tokens@.len(),
            None => expr_list_at(stream(tokens), pos as int) is None,
        },
{
    let ghost ts = stream(tokens);
    let mut list: Vec<Expr> = Vec::new();
    let mut at: usize = pos;
    loop
        invariant_except_break
            ts == stream(tokens),
            pos <= at,
            list@.len() == at - pos,
            at <= tokens@.len() || list@.len() == 0,
            exprs_from(ts, pos as int).0 == exprs_view(list@) + exprs_from(ts, at as int).0,
            exprs_from(ts, pos as int).1 == exprs_from(ts, at as int).1,
        ensures
            ts == stream(tokens),
            pos <= at,
            list@.len() == at - pos,
            at <= tokens@.len() || list@.len() == 0,
            exprs_from(ts, pos as int) == (exprs_view(list@), at as int),
        decreases tokens@.len() - at,
    {
        match parse_expr(tokens, at) {
            Some((e, next)) => {
                let ghost before = exprs_view(list@);
                list.push(e);
                proof {
                    assert(exprs_view(list@) =~= before + seq![e@]);
                    assert((before + seq![e@]) + exprs_from(ts, next as int).0 =~= before + (
                    seq![e@] + exprs_from(ts, next as int).0));
                }
                at = next;
            },
            None => {
                proof {
                    assert(exprs_view(list@) + Seq::<ExprView>::empty() =~= exprs_view(list@));
                }
                break ;
            },
        }
    }
    if list.len() == 0 {
        None
    } else if list.len() == 1 {
        let e = list.remove(0);
        Some((e, at))
    } else {
        let ghost items = exprs_view(list@);
        let group = Expr::Group(list);
        proof {
            crate::parser::lemma_group_view(&group);
            assert(group@->Group_0 =~= items);
        }
        Some((group, at))
    }
}

/// Reads one attribute: `NAME(arguments)`.
pub fn parse_single_attr<'a>(tokens: &[Token<'a>], pos: usize) -> (r: Option<
    ((Ident, Expr), usize),
>)
    ensures
        match r {
            Some(((name, e), next)) => single_attr_at(stream(tokens), pos as int) == Some(
                (StatementView::UpdateField(name@, e@), next as int),
            ) && pos < next <= tokens@.len(),
            None => single_attr_at(stream(tokens), pos as int) is None,
        },
{
    match parse_ident(tokens, pos) {
        None => None,
        Some((name, open)) => {
            if !open_paren_tag(tokens, open) {
                return None;
            }
            match new_parse_expr_list(tokens, open + 1) {
                None => None,
                Some((e, close)) => {
                    if !close_paren_tag(tokens, close) {
                        return None;
                    }
                    Some(((name, e), close + 1))
                },
            }
        },
    }
}

/// Reads the attributes behind an arrow: one or more, each but the first
/// with or without a comma before it.
pub fn parse_attrs_list<'a>(tokens: &[Token<'a>], pos: usize) -> (r: Option<
    (Vec<Statement>, usize),
>)
    ensures
        match r {
            Some((stmts, next)) => single_attr_at(stream(tokens), pos as int) matches Some(
                (first, behind),
            ) && statements_view(stmts@) == seq![first] + more_attrs_from(
                stream(tokens),
                behind,
            ).0 && next == more_attrs_from(stream(tokens), behind).1 && pos < next
                <= tokens@.len(),
            None => single_attr_at(stream(tokens), pos as int) is None,
        },
{
    let ghost ts = stream(tokens);
    match parse_single_attr(tokens, pos) {
        None => None,
        Some(((name, e), behind)) => {
            let ghost first = StatementView::UpdateField(name@, e@);
            let mut out: Vec<Statement> = Vec::new();
            out.push(Statement::UpdateField(name, e));
            assert(statements_view(out@) =~= seq![first]);
            let mut at: usize = behind;
            loop
                invariant_except_break
                    ts == stream(tokens),
                    pos < behind <= at <= tokens@.len(),
                    seq![first] + more_attrs_from(ts, behind as int).0 == statements_view(out@)
                        + more_attrs_from(ts, at as int).0,
                    more_attrs_from(ts, behind as int).1 == more_attrs_from(ts, at as int).1,
                ensures
                    ts == stream(tokens),
                    pos < behind <= at <= tokens@.len(),
                    seq![first] + more_attrs_from(ts, behind as int).0 == statements_view(out@),
                    more_attrs_from(ts, behind as int).1 == at,
                decreases tokens@.len() - at,
            {
                let start = if comma_tag(tokens, at) {
                    match parse_single_attr(tokens, at + 1) {
                        Some(_) => at + 1,
                        None => at,
                    }
                } else {
                    at
                };
                match parse_single_attr(tokens, start) {
                    Some(((name, e), next)) => {
                        let ghost before = statements_view(out@);
                        let ghost update = StatementView::UpdateField(name@, e@);
                        out.push(Statement::UpdateField(name, e));
                        proof {
                            assert(statements_view(out@) =~= before + seq![update]);
                            assert((before + seq![update]) + more_attrs_from(ts, next as int).0
                                =~= before + (seq![update] + more_attrs_from(ts, next as int).0));
                        }
                        at = next;
                    },
                    None => {
                        proof {
                            assert(statements_view(out@) + Seq::<StatementView>::empty()
                                =~= statements_view(out@));
                        }
                        break ;
                    },
                }
            }
            Some((out, at))
        },
    }
}

/// Reads an arrow and the attributes behind it; a comma may close them.
pub fn parse_req_attrs<'a>(tokens: &[Token<'a>], pos: usize) -> (r: Option<
    (Vec<Statement>, usize),
>)
    ensures
        read_view(r) == req_attrs_at(stream(tokens), pos as int),
        r matches Some((_, next)) ==> pos < next <= tokens@.len(),
{
    if !right_arrow_tag(tokens, pos) {
        return None;
    }
    match parse_attrs_list(tokens, pos + 1) {
        None => None,
        Some((stmts, end)) => {
            if comma_tag(tokens, end) {
                Some((stmts, end + 1))
            } else {
                Some((stmts, end))
            }
        },
    }
}

/// Reads the attributes behind an arrow, where there are any.
pub fn parse_opt_attrs<'a>(tokens: &[Token<'a>], pos: usize) -> (r: Option<
    (Vec<Statement>, usize),
>)
    ensures
        read_view(r) == req_attrs_at(stream(tokens), pos as int),
        r matches Some((_, next)) ==> pos < next <= tokens@.len(),
{
    parse_req_attrs(tokens, pos)
}

/// A vector that holds one item.
pub fn single_to_vec<T>(single: T) -> (r: Vec<T>)
    ensures
        r@ == seq![single],
{
    let mut r: Vec<T> = Vec::new();
    r.push(single);
    assert(r@ =~= seq![single]);
    r
}

/// The items of the vectors of a vector, in their order.
pub fn flatten_vec<T>(nested: Vec<Vec<T>>) -> (r: Vec<T>)
    ensures
        r@ == nested@.map_values(|v: Vec<T>| v@).flatten(),
{
    let ghost parts = nested@.map_values(|v: Vec<T>| v@);
    let mut out: Vec<T> = Vec::new();
    let ghost mut done: int = 0;
    for part in it: nested.into_iter()
        invariant
            it.seq() == nested@,
            parts == nested@.map_values(|v: Vec<T>| v@),
            out@ == parts.subrange(0, it.index() as int).flatten(),
    {
        let mut part = part;
        let ghost n = it.index() as int;
        proof {
            let head = parts.subrange(0, n);
            let next = parts.subrange(0, n + 1);
            assert(next =~= head.push(part@));
            assert(next.drop_last() =~= head);
            head.lemma_flatten_push(part@);
        }
        out.append(&mut part);
    }
    proof {
        assert(parts.subrange(0, parts.len() as int) =~= parts);
    }
    out
}

/// Reads `DEFINE name`.
pub fn parse_define_group_statement<'a>(tokens: &[Token<'a>], pos: usize) -> (r: Option<
    (Vec<Statement>, usize),
>)
    ensures
        read_view(r) == define_group_at(stream(tokens), pos as int),
{
    if !define_tag(tokens, pos) {
        return None;
    }
    match parse_ident(tokens, pos + 1) {
        Some((name, next)) => {
            let out = single_to_vec(Statement::StartGroupDefinition(name));
            assert(statements_view(out@) =~= seq![StatementView::StartGroupDefinition(name@)]);
            Some((out, next))
        },
        None => None,
    }
}

/// Reads `WHERE`.
pub fn parse_define_group_where<'a>(tokens: &[Token<'a>], pos: usize) -> (r: Option<
    (Vec<Statement>, usize),
>)
    ensures
        read_view(r) == define_group_where_at(stream(tokens), pos as int),
{
    if where_tag(tokens, pos) {
        let out = single_to_vec(Statement::StartFieldsSection);
        assert(statements_view(out@) =~= seq![StatementView::StartFieldsSection]);
        Some((out, pos + 1))
    } else {
        None
    }
}

/// Reads the declaration of a field, without its alias.
pub fn parse_field_definition<'a>(tokens: &[Token<'a>], pos: usize) -> (r: Option<
    (Statement, usize),
>)
    ensures
        match r {
            Some((decl, next)) => field_definition_at(stream(tokens), pos as int, None) == Some(
                (decl@, next as int),
            ) && next == pos + 1 && pos < tokens@.len(),
            None => field_definition_at(stream(tokens), pos as int, None) is None,
        },
{
    match parse_type(tokens, pos) {
        Some((kind, next)) => Some((Statement::DefineVariableField(kind, None), next)),
        None => match parse_literal(tokens, pos) {
            Some((literal, next)) => Some((Statement::DefineConstField(literal, None), next)),
            None => None,
        },
    }
}

/// Reads the declaration of a field and `AS name` behind it, where it
/// stands.
pub fn parse_field_definition_with_alias<'a>(tokens: &[Token<'a>], pos: usize) -> (r: Option<
    ((Statement, Option<Ident>), usize),
>)
    ensures
        match r {
            Some(((decl, alias), next)) => field_definition_at(stream(tokens), pos as int, None)
                == Some((decl@, pos + 1)) && pos < tokens@.len() && match alias {
                Some(name) => alias_at(stream(tokens), pos + 1) == Some((name@, next as int))
                    && next == pos + 3,
                None => alias_at(stream(tokens), pos + 1) is None && next == pos + 1,
            },
            None => field_definition_at(stream(tokens), pos as int, None) is None,
        },
{
    match parse_field_definition(tokens, pos) {
        None => None,
        Some((decl, next)) => {
            if as_tag(tokens, next) {
                match parse_ident(tokens, next + 1) {
                    Some((name, behind)) => Some(((decl, Some(name)), behind)),
                    None => Some(((decl, None), next)),
                }
            } else {
                Some(((decl, None), next))
            }
        },
    }
}

/// Reads a field: its declaration, its alias and its attributes.
pub fn parse_define_fields<'a>(tokens: &[Token<'a>], pos: usize) -> (r: Option<
    (Vec<Statement>, usize),
>)
    ensures
        read_view(r) == define_fields_at(stream(tokens), pos as int),
{
    match parse_field_definition_with_alias(tokens, pos) {
        None => None,
        Some(((decl, alias), next)) => {
            match alias {
                None => {
                    let out = single_to_vec(decl);
                    assert(statements_view(out@) =~= seq![decl@]);
                    Some((out, next))
                },
                Some(ident) => {
                    // The declaration was read without its alias; the
                    // alias is added to it here.
                    let current = ident.duplicate();
                    let decl = match decl {
                        Statement::DefineVariableField(x, _) => Statement::DefineVariableField(
                            x,
                            Some(ident),
                        ),
                        Statement::DefineConstField(x, _) => Statement::DefineConstField(
                            x,
                            Some(ident),
                        ),
                        other => other,
                    };
                    let mut out = single_to_vec(decl);
                    match parse_opt_attrs(tokens, next) {
                        None => {
                            assert(statements_view(out@) =~= seq![decl@]);
                            Some((out, next))
                        },
                        Some((statements, end)) => {
                            let mut statements = statements;
                            let ghost updates = statements_view(statements@);
                            let make = Statement::MakeCurrentField(current);
                            out.push(make);
                            out.append(&mut statements);
                            assert(statements_view(out@) =~= seq![decl@, make@] + updates);
                            Some((out, end))
                        },
                    }
                },
            }
        },
    }
}

/// Reads `name -> attributes`.
pub fn parse_update_attrs<'a>(tokens: &[Token<'a>], pos: usize) -> (r: Option<
    (Vec<Statement>, usize),
>)
    ensures
        read_view(r) == update_attrs_at(stream(tokens), pos as int),
{
    match parse_ident(tokens, pos) {
        None => None,
        Some((ident, next)) => match parse_req_attrs(tokens, next) {
            None => None,
            Some((attrs, end)) => {
                let mut attrs = attrs;
                let ghost updates = statements_view(attrs@);
                let make = Statement::MakeCurrentField(ident);
                let mut out = single_to_vec(make);
                out.append(&mut attrs);
                assert(statements_view(out@) =~= seq![make@] + updates);
                Some((out, end))
            },
        },
    }
}

/// Reads `GENERATE name`, with or without `WITH`.
pub fn parse_define_generator_statement<'a>(tokens: &[Token<'a>], pos: usize) -> (r: Option<
    (Vec<Statement>, usize),
>)
    ensures
        read_view(r) == define_generator_at(stream(tokens), pos as int),
{
    if !generate_tag(tokens, pos) {
        return None;
    }
    match parse_ident(tokens, pos + 1) {
        Some((name, next)) => {
            let out = single_to_vec(Statement::StartGeneratorDefinition(name));
            assert(statements_view(out@) =~= seq![StatementView::StartGeneratorDefinition(name@)]);
            if with_tag(tokens, next) {
                Some((out, next + 1))
            } else {
                Some((out, next))
            }
        },
        None => None,
    }
}

/// Reads `name = expression`.
pub fn parse_set_param_statement<'a>(tokens: &[Token<'a>], pos: usize) -> (r: Option<
    (Vec<Statement>, usize),
>)
    ensures
        read_view(r) == set_param_at(stream(tokens), pos as int),
{
    match parse_ident(tokens, pos) {
        None => None,
        Some((ident, next)) => {
            if !assign_tag(tokens, next) {
                return None;
            }
            match parse_expr(tokens, next + 1) {
                None => None,
                Some((expr, end)) => {
                    let ghost view = StatementView::UpdateParam(ident@, expr@);
                    let out = single_to_vec(Statement::UpdateParam(ident, expr));
                    assert(statements_view(out@) =~= seq![view]);
                    Some((out, end))
                },
            }
        },
    }
}

/// Reads one form of the source: the first of the rules that matches.
pub fn parse_statement<'a>(tokens: &[Token<'a>], pos: usize) -> (r: Option<
    (Vec<Statement>, usize),
>)
    ensures
        read_view(r) == statement_at(stream(tokens), pos as int),
        r matches Some((_, next)) ==> pos < next <= tokens@.len(),
{
    proof {
        lemma_statement_advances(stream(tokens), pos as int);
    }
    if let Some(r) = parse_define_group_statement(tokens, pos) {
        Some(r)
    } else if let Some(r) = parse_define_group_where(tokens, pos) {
        Some(r)
    } else if let Some(r) = parse_define_fields(tokens, pos) {
        Some(r)
    } else if let Some(r) = parse_update_attrs(tokens, pos) {
        Some(r)
    } else if let Some(r) = parse_define_generator_statement(tokens, pos) {
        Some(r)
    } else if let Some(r) = parse_set_param_statement(tokens, pos) {
        Some(r)
    } else {
        None
    }
}

/// Reads the statements up to the end of input and puts `Run` behind them.
pub fn parse_program<'a>(tokens: &'a [Token<'a>]) -> (r: Result<Program, ParseError<'a>>)
    ensures
        parse_view(r) == parsed(stream(tokens)),
{
    let ghost ts = stream(tokens);
    let mut out: Vec<Statement> = Vec::new();
    let mut at: usize = 0;
    assert(statements_view(out@) + statements_from(ts, 0).0 =~= statements_from(ts, 0).0);
    loop
        invariant_except_break
            ts == stream(tokens),
            at <= tokens@.len(),
            statements_from(ts, 0).0 == statements_view(out@) + statements_from(ts, at as int).0,
            statements_from(ts, 0).1 == statements_from(ts, at as int).1,
        ensures
            ts == stream(tokens),
            at <= tokens@.len(),
            statements_from(ts, 0) == (statements_view(out@), at as int),
        decreases tokens@.len() - at,
    {
        match parse_statement(tokens, at) {
            Some((stmts, next)) => {
                let mut stmts = stmts;
                let ghost before = statements_view(out@);
                let ghost added = statements_view(stmts@);
                out.append(&mut stmts);
                proof {
                    assert(statements_view(out@) =~= before + added);
                    assert((before + added) + statements_from(ts, next as int).0 =~= before + (
                    added + statements_from(ts, next as int).0));
                }
                at = next;
            },
            None => {
                proof {
                    assert(statements_view(out@) + Seq::<StatementView>::empty()
                        =~= statements_view(out@));
                }
                break ;
            },
        }
    }
    if eof_tag(tokens, at) {
        let ghost before = statements_view(out@);
        out.push(Statement::Run);
        assert(statements_view(out@) =~= before.push(StatementView::Run));
        Ok(Program(out))
    } else {
        let token = if at < tokens.len() {
            Some(&tokens[at])
        } else {
            None
        };
        let next = if at < tokens.len() && at + 1 < tokens.len() {
            Some(&tokens[at + 1])
        } else {
            None
        };
        Err(ParseError { position: at, token, next })
    }
}

} // verus!
