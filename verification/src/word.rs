//! Words of a lexicon and their definitions.

use crate::syntax::{
    copy_names, copy_span, names_view, opt_text_view, text_view, Span, Spanned, Text,
};
use crate::tag::{Tag, TagView};
use vstd::prelude::*;

verus! {

/// One sense of a word: an optional part of speech and the defining text.
#[derive(Debug, PartialEq)]
pub struct Definition {
    pub pos: Option<String>,
    pub pos_span: Option<Span>,
    pub definition: String,
    pub definition_span: Span,
}

/// The view of a [`Definition`].
pub struct DefinitionView {
    pub pos: Option<Text>,
    pub pos_span: Option<Span>,
    pub definition: Text,
    pub definition_span: Span,
}

impl View for Definition {
    type V = DefinitionView;

    open spec fn view(&self) -> DefinitionView {
        DefinitionView {
            pos: match self.pos {
                Some(p) => Some(p@),
                None => None,
            },
            pos_span: self.pos_span,
            definition: self.definition@,
            definition_span: self.definition_span,
        }
    }
}

/// The definition that a part of speech and a text make.
pub open spec fn definition_of(
    pos: Option<Spanned<Text>>,
    definition: Spanned<Text>,
) -> DefinitionView {
    DefinitionView {
        pos: match pos {
            Some(p) => Some(p.1),
            None => None,
        },
        pos_span: match pos {
            Some(p) => Some(p.0),
            None => None,
        },
        definition: definition.1,
        definition_span: definition.0,
    }
}

impl Definition {
    /// The definition with the given part of speech, if any, and text.
    pub fn new(pos: &Option<Spanned<String>>, definition: &Spanned<String>) -> (r: Self)
        ensures
            r@ == definition_of(opt_text_view(*pos), text_view(*definition)),
    {
        Self {
            pos: match pos {
                Some(p) => Some(p.1.clone()),
                None => None,
            },
            pos_span: match pos {
                Some(p) => Some(copy_span(&p.0)),
                None => None,
            },
            definition: definition.1.clone(),
            definition_span: copy_span(&definition.0),
        }
    }
}

impl Clone for Definition {
    fn clone(&self) -> (r: Self)
        ensures
            r@ == self@,
    {
        Self {
            pos: match &self.pos {
                Some(p) => Some(p.clone()),
                None => None,
            },
            pos_span: match &self.pos_span {
                Some(s) => Some(copy_span(s)),
                None => None,
            },
            definition: self.definition.clone(),
            definition_span: copy_span(&self.definition_span),
        }
    }
}

/// A sequence of definitions, each seen as its view.
pub open spec fn definitions_view(v: Seq<Definition>) -> Seq<DefinitionView> {
    v.map_values(|d: Definition| d@)
}

/// A copy of a list of definitions.
pub fn copy_definitions(v: &Vec<Definition>) -> (r: Vec<Definition>)
    ensures
        definitions_view(r@) == definitions_view(v@),
{
    let mut r: Vec<Definition> = Vec::new();
    let mut i: usize = 0;
    while i < v.len()
        invariant
            i <= v.len(),
            r@.len() == i,
            forall|j: int| 0 <= j < i ==> (#[trigger] r@[j])@ == v@[j]@,
        decreases v.len() - i,
    {
        r.push(v[i].clone());
        i += 1;
    }
    r
}

/// A word: its gloss, its pronunciation syllable by syllable, its
/// definitions, and the language and time it belongs to.
#[derive(Debug, PartialEq)]
pub struct Word {
    pub gloss: String,
    pub gloss_span: Span,
    pub pronunciation: Vec<String>,
    pub pronunciation_span: Span,
    pub definitions: Vec<Definition>,
    pub tag: Tag,
}

/// The view of a [`Word`].
pub struct WordView {
    pub gloss: Text,
    pub gloss_span: Span,
    pub pronunciation: Seq<Text>,
    pub pronunciation_span: Span,
    pub definitions: Seq<DefinitionView>,
    pub tag: TagView,
}

impl View for Word {
    type V = WordView;

    open spec fn view(&self) -> WordView {
        WordView {
            gloss: self.gloss@,
            gloss_span: self.gloss_span,
            pronunciation: names_view(self.pronunciation@),
            pronunciation_span: self.pronunciation_span,
            definitions: definitions_view(self.definitions@),
            tag: self.tag@,
        }
    }
}

/// The word that a gloss, a pronunciation, definitions and a tag make.
pub open spec fn word_of(
    gloss: Spanned<Text>,
    pronunciation: Spanned<Seq<Text>>,
    definitions: Seq<DefinitionView>,
    tag: TagView,
) -> WordView {
    WordView {
        gloss: gloss.1,
        gloss_span: gloss.0,
        pronunciation: pronunciation.1,
        pronunciation_span: pronunciation.0,
        definitions,
        tag,
    }
}

impl Word {
    /// The word with the given gloss, pronunciation, definitions and tag.
    pub fn new(
        gloss: &Spanned<String>,
        prn: &Spanned<Vec<String>>,
        definitions: &Vec<Definition>,
        tag: &Tag,
    ) -> (r: Self)
        ensures
            r@ == word_of(
                text_view(*gloss),
                (prn.0, names_view(prn.1@)),
                definitions_view(definitions@),
                tag@,
            ),
    {
        Self {
            gloss: gloss.1.clone(),
            gloss_span: copy_span(&gloss.0),
            pronunciation: copy_names(&prn.1),
            pronunciation_span: copy_span(&prn.0),
            definitions: copy_definitions(definitions),
            tag: tag.clone(),
        }
    }
}

impl Clone for Word {
    fn clone(&self) -> (r: Self)
        ensures
            r@ == self@,
    {
        Self {
            gloss: self.gloss.clone(),
            gloss_span: copy_span(&self.gloss_span),
            pronunciation: copy_names(&self.pronunciation),
            pronunciation_span: copy_span(&self.pronunciation_span),
            definitions: copy_definitions(&self.definitions),
            tag: self.tag.clone(),
        }
    }
}

} // verus!
