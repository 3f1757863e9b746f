//! The definition of the generator: which group it emits, how long the
//! output may be and which bytes terminate it.

use crate::error::{syntax, syntax_err, BajzelError, BajzelErrorView};
use crate::parser::{Expr, ExprView, Literal, LiteralView};
use crate::text::same_text;
use vstd::prelude::*;
use vstd::string::*;
use vstd::utf8::*;

verus! {

#[derive(Debug, PartialEq, Eq)]
pub struct GenDefinition {
    /// The name of the group that is emitted.
    pub name: String,
    pub out_min: u32,
    pub out_max: u32,
    pub term: Vec<u8>,
}

pub struct GenDefinitionView {
    pub name: Seq<char>,
    pub out_min: u32,
    pub out_max: u32,
    pub term: Seq<u8>,
}

impl View for GenDefinition {
    type V = GenDefinitionView;

    open spec fn view(&self) -> GenDefinitionView {
        GenDefinitionView {
            name: self.name@,
            out_min: self.out_min,
            out_max: self.out_max,
            term: self.term@,
        }
    }
}

/// The length that an expression gives to `OUT_MIN` or `OUT_MAX`: the low
/// 32 bits of an integer literal.
pub open spec fn output_len_of(e: ExprView) -> Option<u32> {
    match e {
        ExprView::LiteralExpr(LiteralView::IntegerLiteral(value)) => Some(value as u32),
        _ => None,
    }
}

/// The bytes that an expression adds to the terminator.
pub open spec fn term_bytes_of(e: ExprView) -> Result<Seq<u8>, BajzelErrorView> {
    match e {
        ExprView::LiteralExpr(LiteralView::IntegerLiteral(x)) => if 0 <= x <= 255 {
            Ok(seq![x as u8])
        } else {
            Err(syntax("TERM: Decimal ASCII value expected"@))
        },
        ExprView::LiteralExpr(LiteralView::StringLiteral(s)) => Ok(encode_utf8(s)),
        ExprView::LiteralExpr(LiteralView::BytesLiteral(b)) => Ok(b),
        ExprView::LiteralExpr(LiteralView::Reserved(name)) => if name == "LF"@ {
            Ok(seq![0x0Au8])
        } else if name == "NULL"@ {
            Ok(seq![0x00u8])
        } else if name == "RF"@ {
            Ok(seq![0x0Du8])
        } else {
            Err(syntax("TERM: unsupported reserved literal"@))
        },
        ExprView::Group(_) => Err(syntax("TERM: expected a single literal"@)),
    }
}

impl GenDefinitionView {
    /// The definition of a generator that was only named.
    pub open spec fn initial(name: Seq<char>) -> GenDefinitionView {
        GenDefinitionView { name, out_min: 0, out_max: 4096, term: Seq::empty() }
    }

    pub open spec fn with_min_output_len(self, e: ExprView) -> Result<
        GenDefinitionView,
        BajzelErrorView,
    > {
        match output_len_of(e) {
            Some(n) => Ok(GenDefinitionView { out_min: n, ..self }),
            None => Err(syntax("OUT_MIN: expected an integer"@)),
        }
    }

    pub open spec fn with_max_output_len(self, e: ExprView) -> Result<
        GenDefinitionView,
        BajzelErrorView,
    > {
        match output_len_of(e) {
            Some(n) => Ok(GenDefinitionView { out_max: n, ..self }),
            None => Err(syntax("OUT_MAX: expected an integer"@)),
        }
    }

    /// Every `TERM` adds to the terminator; none replaces it.
    pub open spec fn with_term(self, e: ExprView) -> Result<GenDefinitionView, BajzelErrorView> {
        match term_bytes_of(e) {
            Ok(b) => Ok(GenDefinitionView { term: self.term + b, ..self }),
            Err(e) => Err(e),
        }
    }
}

/// Calls `AsBytes::as_bytes` of `nom` on a slice of bytes, which hands
/// out the slice itself.
#[verifier::external_body]
fn as_bytes(bytes: &[u8]) -> (r: &[u8])
    ensures
        r@ == bytes@,
{
    nom::AsBytes::as_bytes(bytes)
}

impl GenDefinition {
    pub fn new(name: String) -> (r: Self)
        ensures
            r@ == GenDefinitionView::initial(name@),
    {
        Self { name, out_min: 0, out_max: 4096, term: Vec::new() }
    }

    pub fn set_min_output_len(&mut self, expr: Expr) -> (r: Result<(), BajzelError>)
        ensures
            match old(self)@.with_min_output_len(expr@) {
                Ok(d) => r is Ok && final(self)@ == d,
                Err(e) => r matches Err(x) && x@ == e && final(self)@ == old(self)@,
            },
    {
        match expr {
            Expr::LiteralExpr(literal) => match literal {
                Literal::IntegerLiteral(value) => {
                    self.out_min = #[verifier::truncate]
                    (value as u32);
                    Ok(())
                },
                _ => syntax_err("OUT_MIN: expected an integer"),
            },
            _ => syntax_err("OUT_MIN: expected an integer"),
        }
    }

    pub fn set_max_output_len(&mut self, expr: Expr) -> (r: Result<(), BajzelError>)
        ensures
            match old(self)@.with_max_output_len(expr@) {
                Ok(d) => r is Ok && final(self)@ == d,
                Err(e) => r matches Err(x) && x@ == e && final(self)@ == old(self)@,
            },
    {
        match expr {
            Expr::LiteralExpr(literal) => match literal {
                Literal::IntegerLiteral(value) => {
                    self.out_max = #[verifier::truncate]
                    (value as u32);
                    Ok(())
                },
                _ => syntax_err("OUT_MAX: expected an integer"),
            },
            _ => syntax_err("OUT_MAX: expected an integer"),
        }
    }

    pub fn set_term(&mut self, expr: Expr) -> (r: Result<(), BajzelError>)
        ensures
            match old(self)@.with_term(expr@) {
                Ok(d) => r is Ok && final(self)@ == d,
                Err(e) => r matches Err(x) && x@ == e && final(self)@ == old(self)@,
            },
    {
        match expr {
            Expr::LiteralExpr(literal) => match literal {
                Literal::IntegerLiteral(x) => {
                    if 0 <= x && x <= 255 {
                        self.term.push(x as u8);
                        assert(self.term@ =~= old(self).term@ + seq![x as u8]);
                        Ok(())
                    } else {
                        syntax_err("TERM: Decimal ASCII value expected")
                    }
                },
                Literal::StringLiteral(x) => {
                    let mut bytes = x.as_str().as_bytes_vec();
                    self.term.append(&mut bytes);
                    Ok(())
                },
                Literal::BytesLiteral(x) => {
                    self.term.extend_from_slice(as_bytes(x.as_slice()));
                    assert(self.term@ =~= old(self).term@ + x@);
                    Ok(())
                },
                Literal::Reserved(x) => {
                    if same_text(x.as_str(), "LF") {
                        self.term.push(0x0A);
                        assert(self.term@ =~= old(self).term@ + seq![0x0Au8]);
                        Ok(())
                    } else if same_text(x.as_str(), "NULL") {
                        self.term.push(0x00);
                        assert(self.term@ =~= old(self).term@ + seq![0x00u8]);
                        Ok(())
                    } else if same_text(x.as_str(), "RF") {
                        self.term.push(0x0D);
                        assert(self.term@ =~= old(self).term@ + seq![0x0Du8]);
                        Ok(())
                    } else {
                        syntax_err("TERM: unsupported reserved literal")
                    }
                },
            },
            _ => syntax_err("TERM: expected a single literal"),
        }
    }
}

} // verus!
