//! The step from source text to statements, which the parser takes.

use crate::syntax::{stmts_view, Span, Spanned, StmtView, Text};
use chronlang_parser::ast;
use vstd::prelude::*;

verus! {

/// What parsing comes to: the statements with their spans, or the spans of
/// the errors. The wording of a parse error is the parser's own business and
/// is no part of this view.
pub type ParseView = Result<Seq<Spanned<StmtView>>, Seq<Span>>;

/// What the parser makes of a source text.
pub uninterp spec fn parsed(source: Text) -> ParseView;

/// The view of a parse result.
pub open spec fn parse_view(
    r: Result<Vec<Spanned<ast::Stmt>>, Vec<Spanned<String>>>,
) -> ParseView {
    match r {
        Ok(stmts) => Ok(stmts_view(stmts@)),
        Err(errors) => Err(errors@.map_values(|e: Spanned<String>| e.0)),
    }
}

/// A statement that the compiler can take: every member of a trait has at
/// least one label, the first of which names it.
pub open spec fn well_formed(stmt: StmtView) -> bool {
    match stmt {
        StmtView::Trait { label, members } => forall|i: int|
            0 <= i < members.len() ==> (#[trigger] members[i]).1.labels.len() > 0,
        _ => true,
    }
}

/// Every statement of the stream is well formed.
pub open spec fn all_well_formed(stmts: Seq<Spanned<StmtView>>) -> bool {
    forall|i: int| 0 <= i < stmts.len() ==> well_formed((#[trigger] stmts[i]).1)
}

/// Calls `chronlang_parser::parse` and hands back its statements as they
/// are, or its errors as pairs of span and message. The contract says that
/// the statements, or else the spans of the errors, are what the parser makes
/// of the text and of nothing else, and that the statements are well formed:
/// the parser's grammar asks for at least one label in a trait member.
/// Nothing is said of the messages.
#[verifier::external_body]
pub(crate) fn parse_source(source: &str) -> (r: Result<
    Vec<Spanned<ast::Stmt>>,
    Vec<Spanned<String>>,
>)
    ensures
        parse_view(r) == parsed(source@),
        r matches Ok(stmts) ==> all_well_formed(stmts_view(stmts@)),
{
    match chronlang_parser::parse(source) {
        Ok(stmts) => Ok(stmts),
        Err(errors) => Err(errors.iter().map(|e| (e.span(), e.to_string())).collect()),
    }
}

} // verus!
