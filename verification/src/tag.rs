//! Tags: the language and the time that a fact belongs to.

use crate::syntax::{copy_span, instant_of, Span, Spanned, Text};
use chronlang_parser::ast;
use vstd::prelude::*;

verus! {

/// Says that a fact holds for `language` as of `time`, and where in the
/// source each of the two was set.
#[derive(Debug, PartialEq)]
pub struct Tag {
    pub language: String,
    pub lang_set_span: Span,
    pub time: ast::Time,
    pub time_set_span: Span,
}

/// The view of a [`Tag`].
pub struct TagView {
    pub language: Text,
    pub lang_set_span: Span,
    pub time: ast::Time,
    pub time_set_span: Span,
}

impl View for Tag {
    type V = TagView;

    open spec fn view(&self) -> TagView {
        TagView {
            language: self.language@,
            lang_set_span: self.lang_set_span,
            time: self.time,
            time_set_span: self.time_set_span,
        }
    }
}

/// The tag that a language and a time make.
pub open spec fn tag_of(lang: Spanned<Text>, time: Spanned<ast::Time>) -> TagView {
    TagView { language: lang.1, lang_set_span: lang.0, time: time.1, time_set_span: time.0 }
}

/// A copy of a time.
pub fn copy_time(t: &ast::Time) -> (r: ast::Time)
    ensures
        r == *t,
{
    match t {
        ast::Time::Instant(at) => ast::Time::Instant(*at),
        ast::Time::Range(start, end) => ast::Time::Range(*start, *end),
    }
}

/// The instant that a time stands for: the point itself, or the end of a
/// range.
pub fn instant(t: &ast::Time) -> (r: i64)
    ensures
        r == instant_of(*t),
{
    match t {
        ast::Time::Instant(at) => *at,
        ast::Time::Range(_, end) => *end,
    }
}

impl Tag {
    /// The tag for a language and a time, each with the span it was set at.
    pub fn new(lang: &Spanned<String>, time: &Spanned<ast::Time>) -> (r: Self)
        ensures
            r@ == tag_of((lang.0, lang.1@), *time),
    {
        Self {
            language: lang.1.clone(),
            lang_set_span: copy_span(&lang.0),
            time: copy_time(&time.1),
            time_set_span: copy_span(&time.0),
        }
    }
}

impl Clone for Tag {
    fn clone(&self) -> (r: Self)
        ensures
            r@ == self@,
    {
        Self {
            language: self.language.clone(),
            lang_set_span: copy_span(&self.lang_set_span),
            time: copy_time(&self.time),
            time_set_span: copy_span(&self.time_set_span),
        }
    }
}

} // verus!
