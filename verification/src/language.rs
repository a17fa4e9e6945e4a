//! Languages as they are declared.

use crate::syntax::{copy_span, opt_text_view, text_view, Span, Spanned, Text};
use vstd::prelude::*;

verus! {

/// A declared language: its identifier, its display name and, where it
/// descends from another language, that language's identifier.
#[derive(Debug, PartialEq)]
pub struct Language {
    id: String,
    id_span: Span,
    name: String,
    parent: Option<String>,
    parent_span: Option<Span>,
}

/// The view of a [`Language`].
pub struct LanguageView {
    pub id: Text,
    pub id_span: Span,
    pub name: Text,
    pub parent: Option<Text>,
    pub parent_span: Option<Span>,
}

impl View for Language {
    type V = LanguageView;

    closed spec fn view(&self) -> LanguageView {
        LanguageView {
            id: self.id@,
            id_span: self.id_span,
            name: self.name@,
            parent: match self.parent {
                Some(p) => Some(p@),
                None => None,
            },
            parent_span: self.parent_span,
        }
    }
}

/// The language that a declaration makes: without a display name it is
/// called by its identifier.
pub open spec fn language_of(
    id: Spanned<Text>,
    name: Option<Spanned<Text>>,
    parent: Option<Spanned<Text>>,
) -> LanguageView {
    LanguageView {
        id: id.1,
        id_span: id.0,
        name: match name {
            Some(n) => n.1,
            None => id.1,
        },
        parent: match parent {
            Some(p) => Some(p.1),
            None => None,
        },
        parent_span: match parent {
            Some(p) => Some(p.0),
            None => None,
        },
    }
}

impl Language {
    /// The language declared by an identifier, an optional display name and
    /// an optional parent.
    pub fn new(
        id: &Spanned<String>,
        name: &Option<Spanned<String>>,
        parent: &Option<Spanned<String>>,
    ) -> (r: Self)
        ensures
            r@ == language_of(
                text_view(*id),
                opt_text_view(*name),
                opt_text_view(*parent),
            ),
    {
        Self {
            id: id.1.clone(),
            id_span: copy_span(&id.0),
            name: match name {
                Some(n) => n.1.clone(),
                None => id.1.clone(),
            },
            parent: match parent {
                Some(p) => Some(p.1.clone()),
                None => None,
            },
            parent_span: match parent {
                Some(p) => Some(copy_span(&p.0)),
                None => None,
            },
        }
    }
}

impl Clone for Language {
    fn clone(&self) -> (r: Self)
        ensures
            r@ == self@,
    {
        Self {
            id: self.id.clone(),
            id_span: copy_span(&self.id_span),
            name: self.name.clone(),
            parent: match &self.parent {
                Some(p) => Some(p.clone()),
                None => None,
            },
            parent_span: match &self.parent_span {
                Some(s) => Some(copy_span(s)),
                None => None,
            },
        }
    }
}

} // verus!
