//! The grammar: what the parser reads at a position of the tokens. Each
//! rule gives what it read and the position behind it, or nothing; the
//! rules of a choice are tried in their order.

use crate::lexer::TokenView;
use crate::parser::{ExprView, LiteralView, StatementView};
use vstd::prelude::*;

verus! {

/// Whether the token at `i` is `t`.
pub open spec fn tag(ts: Seq<TokenView>, i: int, t: TokenView) -> bool {
    0 <= i < ts.len() && ts[i] == t
}

pub open spec fn ident_at(ts: Seq<TokenView>, i: int) -> Option<(Seq<char>, int)> {
    if 0 <= i < ts.len() {
        match ts[i] {
            TokenView::Ident(x) => Some((x, i + 1)),
            _ => None,
        }
    } else {
        None
    }
}

pub open spec fn type_at(ts: Seq<TokenView>, i: int) -> Option<(Seq<char>, int)> {
    if 0 <= i < ts.len() {
        match ts[i] {
            TokenView::Type(name) => Some((name, i + 1)),
            _ => None,
        }
    } else {
        None
    }
}

pub open spec fn literal_at(ts: Seq<TokenView>, i: int) -> Option<(LiteralView, int)> {
    if 0 <= i < ts.len() {
        match ts[i] {
            TokenView::IntegerLiteral(x) => Some((LiteralView::IntegerLiteral(x), i + 1)),
            TokenView::StringLiteral(x) => Some((LiteralView::StringLiteral(x), i + 1)),
            TokenView::Bytes(x) => Some((LiteralView::BytesLiteral(x), i + 1)),
            TokenView::ReservedIdent(x) => Some((LiteralView::Reserved(x), i + 1)),
            _ => None,
        }
    } else {
        None
    }
}

/// An expression is a literal.
pub open spec fn expr_at(ts: Seq<TokenView>, i: int) -> Option<(ExprView, int)> {
    match literal_at(ts, i) {
        Some((literal, next)) => Some((ExprView::LiteralExpr(literal), next)),
        None => None,
    }
}

/// The expressions that follow one another from `i` on.
pub open spec fn exprs_from(ts: Seq<TokenView>, i: int) -> (Seq<ExprView>, int)
    decreases ts.len() - i,
{
    match expr_at(ts, i) {
        Some((e, next)) => (seq![e] + exprs_from(ts, next).0, exprs_from(ts, next).1),
        None => (Seq::empty(), i),
    }
}

/// The arguments of an attribute: one expression stands for itself, more
/// than one make a group.
pub open spec fn expr_list_at(ts: Seq<TokenView>, i: int) -> Option<(ExprView, int)> {
    let (list, next) = exprs_from(ts, i);
    if list.len() == 0 {
        None
    } else if list.len() == 1 {
        Some((list[0], next))
    } else {
        Some((ExprView::Group(list), next))
    }
}

/// One attribute: a name and, between round brackets, its arguments.
pub open spec fn single_attr_at(ts: Seq<TokenView>, i: int) -> Option<(StatementView, int)> {
    match ident_at(ts, i) {
        Some((name, open)) => if tag(ts, open, TokenView::LeftParen) {
            match expr_list_at(ts, open + 1) {
                Some((e, close)) => if tag(ts, close, TokenView::RightParen) {
                    Some((StatementView::UpdateField(name, e), close + 1))
                } else {
                    None
                },
                None => None,
            }
        } else {
            None
        },
        None => None,
    }
}

/// The attributes that follow the first one, each with or without a comma
/// before it.
pub open spec fn more_attrs_from(ts: Seq<TokenView>, i: int) -> (Seq<StatementView>, int)
    decreases ts.len() - i,
{
    let at = if tag(ts, i, TokenView::Comma) && single_attr_at(ts, i + 1) is Some {
        i + 1
    } else {
        i
    };
    match single_attr_at(ts, at) {
        Some((update, next)) => {
            proof {
                lemma_single_attr_advances(ts, at);
            }
            (seq![update] + more_attrs_from(ts, next).0, more_attrs_from(ts, next).1)
        },
        None => (Seq::empty(), i),
    }
}

/// An arrow and one attribute or more; a comma may close the list.
pub open spec fn req_attrs_at(ts: Seq<TokenView>, i: int) -> Option<(Seq<StatementView>, int)> {
    if tag(ts, i, TokenView::RightArrow) {
        match single_attr_at(ts, i + 1) {
            Some((update, next)) => {
                let (more, end) = more_attrs_from(ts, next);
                Some(
                    (
                        seq![update] + more,
                        if tag(ts, end, TokenView::Comma) {
                            end + 1
                        } else {
                            end
                        },
                    ),
                )
            },
            None => None,
        }
    } else {
        None
    }
}

/// `DEFINE name`.
pub open spec fn define_group_at(ts: Seq<TokenView>, i: int) -> Option<
    (Seq<StatementView>, int),
> {
    if tag(ts, i, TokenView::Define) {
        match ident_at(ts, i + 1) {
            Some((name, next)) => Some((seq![StatementView::StartGroupDefinition(name)], next)),
            None => None,
        }
    } else {
        None
    }
}

/// `WHERE`.
pub open spec fn define_group_where_at(ts: Seq<TokenView>, i: int) -> Option<
    (Seq<StatementView>, int),
> {
    if tag(ts, i, TokenView::Where) {
        Some((seq![StatementView::StartFieldsSection], i + 1))
    } else {
        None
    }
}

/// `AS name`.
pub open spec fn alias_at(ts: Seq<TokenView>, i: int) -> Option<(Seq<char>, int)> {
    if tag(ts, i, TokenView::As) {
        ident_at(ts, i + 1)
    } else {
        None
    }
}

/// The declaration of a field under the alias `alias`: a type makes a
/// variable field, a literal a constant one; a type is tried first.
pub open spec fn field_definition_at(
    ts: Seq<TokenView>,
    i: int,
    alias: Option<Seq<char>>,
) -> Option<(StatementView, int)> {
    match type_at(ts, i) {
        Some((kind, next)) => Some((StatementView::DefineVariableField(kind, alias), next)),
        None => match literal_at(ts, i) {
            Some((literal, next)) => Some((StatementView::DefineConstField(literal, alias), next)),
            None => None,
        },
    }
}

/// A field: its declaration, then an alias or none, then, behind an alias,
/// attributes or none. Attributes make the field the current one before
/// they update it.
pub open spec fn define_fields_at(ts: Seq<TokenView>, i: int) -> Option<
    (Seq<StatementView>, int),
> {
    match field_definition_at(ts, i, None) {
        None => None,
        Some((bare, next)) => match alias_at(ts, next) {
            None => Some((seq![bare], next)),
            Some((alias, behind)) => {
                let named = field_definition_at(ts, i, Some(alias))->Some_0.0;
                match req_attrs_at(ts, behind) {
                    None => Some((seq![named], behind)),
                    Some((updates, end)) => Some(
                        (seq![named, StatementView::MakeCurrentField(alias)] + updates, end),
                    ),
                }
            },
        },
    }
}

/// `name -> attributes`: the field of that name becomes the current one
/// and is updated.
pub open spec fn update_attrs_at(ts: Seq<TokenView>, i: int) -> Option<
    (Seq<StatementView>, int),
> {
    match ident_at(ts, i) {
        Some((name, next)) => match req_attrs_at(ts, next) {
            Some((updates, end)) => Some(
                (seq![StatementView::MakeCurrentField(name)] + updates, end),
            ),
            None => None,
        },
        None => None,
    }
}

/// `GENERATE name`, with or without `WITH` behind it.
pub open spec fn define_generator_at(ts: Seq<TokenView>, i: int) -> Option<
    (Seq<StatementView>, int),
> {
    if tag(ts, i, TokenView::Generate) {
        match ident_at(ts, i + 1) {
            Some((name, next)) => Some(
                (
                    seq![StatementView::StartGeneratorDefinition(name)],
                    if tag(ts, next, TokenView::With) {
                        next + 1
                    } else {
                        next
                    },
                ),
            ),
            None => None,
        }
    } else {
        None
    }
}

/// `name = expression`.
pub open spec fn set_param_at(ts: Seq<TokenView>, i: int) -> Option<(Seq<StatementView>, int)> {
    match ident_at(ts, i) {
        Some((name, next)) => if tag(ts, next, TokenView::Assign) {
            match expr_at(ts, next + 1) {
                Some((e, end)) => Some((seq![StatementView::UpdateParam(name, e)], end)),
                None => None,
            }
        } else {
            None
        },
        None => None,
    }
}

/// The statements that one form of the source stands for.
pub open spec fn statement_at(ts: Seq<TokenView>, i: int) -> Option<(Seq<StatementView>, int)> {
    if let Some(r) = define_group_at(ts, i) {
        Some(r)
    } else if let Some(r) = define_group_where_at(ts, i) {
        Some(r)
    } else if let Some(r) = define_fields_at(ts, i) {
        Some(r)
    } else if let Some(r) = update_attrs_at(ts, i) {
        Some(r)
    } else if let Some(r) = define_generator_at(ts, i) {
        Some(r)
    } else if let Some(r) = set_param_at(ts, i) {
        Some(r)
    } else {
        None
    }
}

/// The statements from `i` on, up to the position where no form matches.
pub open spec fn statements_from(ts: Seq<TokenView>, i: int) -> (Seq<StatementView>, int)
    decreases ts.len() - i,
{
    match statement_at(ts, i) {
        Some((stmts, next)) => {
            proof {
                lemma_statement_advances(ts, i);
            }
            (stmts + statements_from(ts, next).0, statements_from(ts, next).1)
        },
        None => (Seq::empty(), i),
    }
}

/// Where parsing failed: the position, the token there and the one behind
/// it.
pub struct ParseErrorView {
    pub position: int,
    pub token: Option<TokenView>,
    pub next: Option<TokenView>,
}

/// The failure at the position `p`.
pub open spec fn failure_at(ts: Seq<TokenView>, p: int) -> ParseErrorView {
    ParseErrorView {
        position: p,
        token: if 0 <= p < ts.len() {
            Some(ts[p])
        } else {
            None
        },
        next: if 0 <= p + 1 < ts.len() {
            Some(ts[p + 1])
        } else {
            None
        },
    }
}

/// The program that the tokens stand for: the statements up to the end of
/// input, and `Run` behind them; a failure where something else stands at
/// the position where no statement starts.
pub open spec fn parsed(ts: Seq<TokenView>) -> Result<Seq<StatementView>, ParseErrorView> {
    let (stmts, end) = statements_from(ts, 0);
    if tag(ts, end, TokenView::Eof) {
        Ok(stmts.push(StatementView::Run))
    } else {
        Err(failure_at(ts, end))
    }
}

pub proof fn lemma_exprs_from(ts: Seq<TokenView>, i: int)
    requires
        0 <= i,
    ensures
        i <= exprs_from(ts, i).1 <= ts.len() || exprs_from(ts, i).1 == i,
        exprs_from(ts, i).0.len() == 0 ==> exprs_from(ts, i).1 == i,
        exprs_from(ts, i).0.len() > 0 ==> i < exprs_from(ts, i).1 <= ts.len(),
    decreases ts.len() - i,
{
    if expr_at(ts, i) is Some {
        lemma_exprs_from(ts, i + 1);
    }
}

/// An attribute takes tokens, and none beyond the last.
pub proof fn lemma_single_attr_advances(ts: Seq<TokenView>, i: int)
    ensures
        single_attr_at(ts, i) matches Some((update, next)) ==> 0 <= i < next <= ts.len()
            && update is UpdateField,
{
    if 0 <= i {
        lemma_exprs_from(ts, i + 2);
    }
}

pub proof fn lemma_more_attrs_from(ts: Seq<TokenView>, i: int)
    requires
        0 <= i <= ts.len(),
    ensures
        i <= more_attrs_from(ts, i).1 <= ts.len(),
        forall|k: int|
            0 <= k < more_attrs_from(ts, i).0.len() ==> (#[trigger] more_attrs_from(
                ts,
                i,
            ).0[k]) is UpdateField,
    decreases ts.len() - i,
{
    let at = if tag(ts, i, TokenView::Comma) && single_attr_at(ts, i + 1) is Some {
        i + 1
    } else {
        i
    };
    lemma_single_attr_advances(ts, at);
    if let Some((update, next)) = single_attr_at(ts, at) {
        lemma_more_attrs_from(ts, next);
    }
}

pub proof fn lemma_req_attrs_advances(ts: Seq<TokenView>, i: int)
    ensures
        req_attrs_at(ts, i) matches Some((updates, next)) ==> 0 <= i < next <= ts.len() && forall|
            k: int,
        |
            0 <= k < updates.len() ==> (#[trigger] updates[k]) is UpdateField,
{
    if tag(ts, i, TokenView::RightArrow) {
        lemma_single_attr_advances(ts, i + 1);
        if let Some((update, next)) = single_attr_at(ts, i + 1) {
            lemma_more_attrs_from(ts, next);
        }
    }
}

/// A statement takes tokens, and none beyond the last; `Run` is no
/// statement of the source.
pub proof fn lemma_statement_advances(ts: Seq<TokenView>, i: int)
    ensures
        statement_at(ts, i) matches Some((stmts, next)) ==> 0 <= i < next <= ts.len() && forall|
            k: int,
        |
            0 <= k < stmts.len() ==> !((#[trigger] stmts[k]) is Run),
{
    if 0 <= i < ts.len() {
        lemma_req_attrs_advances(ts, i + 1);
        lemma_req_attrs_advances(ts, i + 3);
    }
}

pub proof fn lemma_statements_from(ts: Seq<TokenView>, i: int)
    requires
        0 <= i <= ts.len(),
    ensures
        i <= statements_from(ts, i).1 <= ts.len(),
        forall|k: int|
            0 <= k < statements_from(ts, i).0.len() ==> !((#[trigger] statements_from(
                ts,
                i,
            ).0[k]) is Run),
    decreases ts.len() - i,
{
    lemma_statement_advances(ts, i);
    if let Some((stmts, next)) = statement_at(ts, i) {
        lemma_statements_from(ts, next);
    }
}

} // verus!
