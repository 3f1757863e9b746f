//! The failures that evaluation and generation report.

use vstd::prelude::*;
use vstd::string::*;

verus! {

#[derive(Debug, PartialEq, Eq)]
pub enum BajzelError {
    /// A name that stands for no number format.
    Conversion(String),
    /// The statements ended before the program was complete.
    ProgramNotFinished,
    /// A statement or an attribute used where or how it may not be.
    Syntax(String),
    /// An expression whose shape does not fit its place.
    Expr(String),
    /// The environment lacks what generation needs.
    NotConstructedProperly,
}

/// The mathematical content of a [`BajzelError`].
pub enum BajzelErrorView {
    Conversion(Seq<char>),
    ProgramNotFinished,
    Syntax(Seq<char>),
    Expr(Seq<char>),
    NotConstructedProperly,
}

impl View for BajzelError {
    type V = BajzelErrorView;

    open spec fn view(&self) -> BajzelErrorView {
        match self {
            BajzelError::Conversion(m) => BajzelErrorView::Conversion(m@),
            BajzelError::ProgramNotFinished => BajzelErrorView::ProgramNotFinished,
            BajzelError::Syntax(m) => BajzelErrorView::Syntax(m@),
            BajzelError::Expr(m) => BajzelErrorView::Expr(m@),
            BajzelError::NotConstructedProperly => BajzelErrorView::NotConstructedProperly,
        }
    }
}

/// A syntax error with the given message.
pub open spec fn syntax(msg: Seq<char>) -> BajzelErrorView {
    BajzelErrorView::Syntax(msg)
}

/// Fails with a syntax error that carries `msg`.
pub fn syntax_err<T>(msg: &str) -> (r: Result<T, BajzelError>)
    ensures
        r matches Err(e) && e@ == syntax(msg@),
{
    Err(BajzelError::Syntax(msg.to_owned()))
}

/// Fails with a syntax error whose message is `msg`, then `name` between
/// round brackets.
pub fn syntax_err_about<T>(msg: &str, name: &str) -> (r: Result<T, BajzelError>)
    ensures
        r matches Err(e) && e@ == syntax(about(msg@, name@)),
{
    let text = msg.to_owned().concat(" (").concat(name).concat(")");
    Err(BajzelError::Syntax(text))
}

/// A message, then a name between round brackets.
pub open spec fn about(msg: Seq<char>, name: Seq<char>) -> Seq<char> {
    msg + " ("@ + name + ")"@
}

} // verus!
