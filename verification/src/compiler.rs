//! The compiler: a statement stream is taken in order, each statement in the
//! language and at the time that the milestones before it have set, and
//! becomes symbols, words, sound changes, milestones and tags of a project.
//! Whatever goes wrong is reported and the stream is taken to its end. What
//! each step comes to is said in [`crate::semantics`].

use crate::language::Language;
use crate::parsing::{all_well_formed, parse_source, parsed};
use crate::project::{
    empty_project, import_errors_view, lookup, Entity, ImportError, ImportErrorView, Location, Project,
    ProjectView, SoundChange, Symbol, SymbolView,
};
use crate::resolver::Resolve;
use crate::semantics::{
    bare, class_step, compilation, compiled, definitions_of, entered, import_error, import_step,
    imported_paths, initial_state, language_step, member_names, members_entered, milestone_step,
    names_imported, paths_view, phoneme_names, phonemes_entered, run, series_step,
    sound_change_step, step, trait_step, wildcard, with_error, within_reach, word_step, StateView,
};
use crate::syntax::{
    copy_member, copy_names, copy_opt_text, copy_span, copy_text, copy_texts, member_view,
    members_view, names_view, opt_text_view, phonemes_view, senses_view, series_view,
    spanned_members_view, stmt_view, stmts_view, strs_view, text_view, texts_view, Span, Spanned,
    Text, TraitMemberView,
};
use crate::tag::{instant, Tag};
use crate::word::{definition_of, definitions_view, Definition, Word};
use chronlang_parser::ast;
use core::ops::Range;
use vstd::prelude::*;

verus! {

/// What a compilation reports as wrong.
#[derive(Debug, PartialEq)]
pub enum CompilationError {
    /// The source did not parse: the span and the message of each error.
    ParseErrors(Vec<(Span, String)>),
    /// A milestone without a language came before any language was set.
    FirstTagNoLanguage(Span),
    /// A word or a sound change came before any language was set.
    NoLanguage(Span),
    /// An import could not be followed; the string says why.
    BadImport(Span, String),
    /// An imported module does not define a requested name.
    ImportedNameNotFound(Span, String),
    /// An imported module does not define a name that an imported symbol
    /// depends on.
    ImportDependencyNotFound(String),
    /// A name was defined or imported that was taken already, by this
    /// symbol.
    NameCollision(Span, Symbol),
}

/// The view of a [`CompilationError`]. Of parse errors it keeps the spans.
pub enum ErrorView {
    ParseErrors(Seq<Span>),
    FirstTagNoLanguage(Span),
    NoLanguage(Span),
    BadImport(Span, Text),
    ImportedNameNotFound(Span, Text),
    ImportDependencyNotFound(Text),
    NameCollision(Span, SymbolView),
}

impl View for CompilationError {
    type V = ErrorView;

    open spec fn view(&self) -> ErrorView {
        match *self {
            CompilationError::ParseErrors(errors) => ErrorView::ParseErrors(
                errors@.map_values(|e: Spanned<String>| e.0),
            ),
            CompilationError::FirstTagNoLanguage(span) => ErrorView::FirstTagNoLanguage(span),
            CompilationError::NoLanguage(span) => ErrorView::NoLanguage(span),
            CompilationError::BadImport(span, reason) => ErrorView::BadImport(span, reason@),
            CompilationError::ImportedNameNotFound(span, name) => ErrorView::ImportedNameNotFound(
                span,
                name@,
            ),
            CompilationError::ImportDependencyNotFound(name) => ErrorView::ImportDependencyNotFound(
                name@,
            ),
            CompilationError::NameCollision(span, held) => ErrorView::NameCollision(span, held@),
        }
    }
}

impl Clone for CompilationError {
    fn clone(&self) -> (r: Self)
        ensures
            r@ == self@,
    {
        match self {
            CompilationError::ParseErrors(errors) => CompilationError::ParseErrors(
                copy_texts(errors),
            ),
            CompilationError::FirstTagNoLanguage(span) => CompilationError::FirstTagNoLanguage(
                copy_span(span),
            ),
            CompilationError::NoLanguage(span) => CompilationError::NoLanguage(copy_span(span)),
            CompilationError::BadImport(span, reason) => CompilationError::BadImport(
                copy_span(span),
                reason.clone(),
            ),
            CompilationError::ImportedNameNotFound(span, name) => {
                CompilationError::ImportedNameNotFound(copy_span(span), name.clone())
            },
            CompilationError::ImportDependencyNotFound(name) => {
                CompilationError::ImportDependencyNotFound(name.clone())
            },
            CompilationError::NameCollision(span, held) => CompilationError::NameCollision(
                copy_span(span),
                held.clone(),
            ),
        }
    }
}

/// What a compilation warns of.
#[derive(Debug, PartialEq)]
pub enum CompilationWarning {
    /// A construct that is accepted and not yet acted on.
    Unimplemented(Span, String),
}

/// The view of a [`CompilationWarning`].
pub enum WarningView {
    Unimplemented(Span, Text),
}

impl View for CompilationWarning {
    type V = WarningView;

    open spec fn view(&self) -> WarningView {
        match *self {
            CompilationWarning::Unimplemented(span, what) => WarningView::Unimplemented(span, what@),
        }
    }
}

impl Clone for CompilationWarning {
    fn clone(&self) -> (r: Self)
        ensures
            r@ == self@,
    {
        match self {
            CompilationWarning::Unimplemented(span, what) => CompilationWarning::Unimplemented(
                copy_span(span),
                what.clone(),
            ),
        }
    }
}

/// What a compilation comes to.
#[derive(Debug, PartialEq)]
pub struct CompilationResult {
    /// Whether no error was reported.
    pub ok: bool,
    pub project: Project,
    pub errors: Vec<CompilationError>,
    pub warnings: Vec<CompilationWarning>,
}

/// The view of a [`CompilationResult`].
pub struct ResultView {
    pub ok: bool,
    pub project: ProjectView,
    pub errors: Seq<ErrorView>,
    pub warnings: Seq<WarningView>,
}

/// A sequence of errors, each seen as its view.
pub open spec fn errors_view(v: Seq<CompilationError>) -> Seq<ErrorView> {
    v.map_values(|e: CompilationError| e@)
}

/// A sequence of warnings, each seen as its view.
pub open spec fn warnings_view(v: Seq<CompilationWarning>) -> Seq<WarningView> {
    v.map_values(|w: CompilationWarning| w@)
}

impl View for CompilationResult {
    type V = ResultView;

    open spec fn view(&self) -> ResultView {
        ResultView {
            ok: self.ok,
            project: self.project@,
            errors: errors_view(self.errors@),
            warnings: warnings_view(self.warnings@),
        }
    }
}

/// What the compiler carries from statement to statement, beside the
/// project.
pub struct CompilerState<'a> {
    /// The name of the source that is being compiled.
    pub source_name: &'a str,
    /// The language that the next statement stands in, if one is set.
    pub current_language: Option<Spanned<String>>,
    /// The time that the next statement stands at.
    pub current_time: Spanned<ast::Time>,
    pub errors: Vec<CompilationError>,
    pub warnings: Vec<CompilationWarning>,
}

/// The state that a project and what the compiler carries make.
pub open spec fn state_view(project: ProjectView, state: CompilerState) -> StateView {
    StateView {
        project,
        language: opt_text_view(state.current_language),
        time: state.current_time,
        errors: errors_view(state.errors@),
        warnings: warnings_view(state.warnings@),
    }
}

impl<'a> CompilerState<'a> {
    /// The state at the start of the source called `source_name`.
    pub fn new(source_name: &'a str) -> (r: Self)
        ensures
            r.source_name == source_name,
            state_view(empty_project(), r) == initial_state(),
    {
        let r = Self {
            source_name,
            current_language: None,
            current_time: (Range { start: 0, end: 0 }, ast::Time::Instant(0)),
            errors: Vec::new(),
            warnings: Vec::new(),
        };
        assert(errors_view(r.errors@) =~= Seq::empty());
        assert(warnings_view(r.warnings@) =~= Seq::empty());
        r
    }
}

/// Reports an error.
pub fn report(state: &mut CompilerState, error: CompilationError)
    ensures
        final(state).source_name == old(state).source_name,
        forall|p: ProjectView| #[trigger]
            state_view(p, *final(state)) == with_error(state_view(p, *old(state)), error@),
{
    assert(errors_view(state.errors@.push(error)) =~= errors_view(state.errors@).push(error@));
    state.errors.push(error);
}

/// Offers a symbol to the table and reports a collision at `at`. Says
/// whether the symbol was registered.
pub fn enter(project: &mut Project, state: &mut CompilerState, symbol: Symbol, at: &Span) -> (r: bool)
    ensures
        final(state).source_name == old(state).source_name,
        old(project)@.wf() ==> final(project)@.wf(),
        state_view(final(project)@, *final(state)) == entered(
            state_view(old(project)@, *old(state)),
            symbol@,
            *at,
        ),
        r == (lookup(old(project)@.symbols, symbol@.name) is None),
{
    match project.add_symbol(symbol) {
        Ok(_) => true,
        Err(held) => {
            report(state, CompilationError::NameCollision(copy_span(at), held));
            false
        },
    }
}

/// Takes a milestone: sets the time and the language that it gives, records
/// the instant of the time, reports a first milestone without a language, and
/// makes a tag where a language is set.
pub fn compile_milestone(
    project: &mut Project,
    state: &mut CompilerState,
    span: &Span,
    time: Option<Spanned<ast::Time>>,
    language: Option<Spanned<String>>,
)
    ensures
        final(state).source_name == old(state).source_name,
        old(project)@.wf() ==> final(project)@.wf(),
        state_view(final(project)@, *final(state)) == milestone_step(
            state_view(old(project)@, *old(state)),
            *span,
            time,
            opt_text_view(language),
        ),
{
    if let Some(time) = time {
        project.milestones.push(instant(&time.1));
        state.current_time = time;
    }
    match language {
        Some(language) => {
            state.current_language = Some(language);
        },
        None => {
            if project.tags.len() == 0 {
                report(state, CompilationError::FirstTagNoLanguage(copy_span(span)));
            }
        },
    }
    if let Some(language) = &state.current_language {
        let tag = Tag::new(language, &state.current_time);
        assert(project.tags@.push(tag).map_values(|t: Tag| t@) =~= project@.tags.push(tag@));
        project.tags.push(tag);
    }
}

/// Takes a sound change: records it with a tag of the current language and
/// time, or reports that no language is set.
pub fn compile_sound_change(
    project: &mut Project,
    state: &mut CompilerState,
    span: Span,
    source: Spanned<ast::Source>,
    target: Spanned<ast::Target>,
    environment: Option<Spanned<ast::Environment>>,
    description: Option<Spanned<String>>,
)
    ensures
        final(state).source_name == old(state).source_name,
        old(project)@.wf() ==> final(project)@.wf(),
        state_view(final(project)@, *final(state)) == sound_change_step(
            state_view(old(project)@, *old(state)),
            old(state).source_name@,
            span,
            source,
            target,
            environment,
            opt_text_view(description),
        ),
{
    match &state.current_language {
        Some(lang) => {
            let change = SoundChange {
                source_name: state.source_name.to_owned(),
                source,
                target,
                environment,
                description,
                tag: Tag::new(lang, &state.current_time),
            };
            assert(project.sound_changes@.push(change).map_values(|c: SoundChange| c@)
                =~= project@.sound_changes.push(change@));
            project.sound_changes.push(change);
        },
        None => report(state, CompilationError::NoLanguage(span)),
    }
}

/// Takes the declaration of a language: offers its symbol to the table and,
/// where that is registered, records the language.
pub fn compile_language(
    project: &mut Project,
    state: &mut CompilerState,
    span: &Span,
    id: Spanned<String>,
    parent: Option<Spanned<String>>,
    name: Option<Spanned<String>>,
)
    ensures
        final(state).source_name == old(state).source_name,
        old(project)@.wf() ==> final(project)@.wf(),
        state_view(final(project)@, *final(state)) == language_step(
            state_view(old(project)@, *old(state)),
            old(state).source_name@,
            *span,
            text_view(id),
            opt_text_view(parent),
            opt_text_view(name),
        ),
{
    let language = Language::new(&id, &name, &parent);
    let dependencies = match &parent {
        Some(p) => vec![p.1.clone()],
        None => Vec::new(),
    };
    let symbol = Symbol {
        name: id.1.clone(),
        loc: Location { source_name: state.source_name.to_owned(), span: copy_span(span) },
        value: Entity::Language(language.clone()),
        dependencies,
    };
    proof {
        match parent {
            Some(p) => assert(names_view(dependencies@) =~= seq![p.1@]),
            None => assert(names_view(dependencies@) =~= Seq::empty()),
        }
    }
    if enter(project, state, symbol, &id.0) {
        assert(project.languages@.push(language).map_values(|l: Language| l@)
            =~= project@.languages.push(language@));
        project.languages.push(language);
    }
}

/// Calls `char::to_string` of std, which gives the string that holds the
/// character and nothing else.
#[verifier::external_body]
fn char_string(c: char) -> (r: String)
    ensures
        r@ == seq![c],
{
    c.to_string()
}

/// The strings of spanned strings, in their order.
pub fn bare_names(v: &Vec<Spanned<String>>) -> (r: Vec<String>)
    ensures
        names_view(r@) == bare(texts_view(v@)),
{
    let mut r: Vec<String> = Vec::new();
    let mut i: usize = 0;
    while i < v.len()
        invariant
            i <= v.len(),
            r@.len() == i,
            forall|j: int| 0 <= j < i ==> (#[trigger] r@[j])@ == v@[j].1@,
        decreases v.len() - i,
    {
        r.push(v[i].1.clone());
        i += 1;
    }
    r
}

/// Takes the definition of a series: offers its symbol to the table.
pub fn compile_series(
    project: &mut Project,
    state: &mut CompilerState,
    span: &Span,
    label: Spanned<String>,
    series: Spanned<ast::Series>,
)
    ensures
        final(state).source_name == old(state).source_name,
        old(project)@.wf() ==> final(project)@.wf(),
        state_view(final(project)@, *final(state)) == series_step(
            state_view(old(project)@, *old(state)),
            old(state).source_name@,
            *span,
            text_view(label),
            (series.0, series_view(series.1)),
        ),
{
    let dependencies = match &series.1 {
        ast::Series::Category(cat) => match &cat.base_class {
            Some(base) => {
                let d = vec![char_string(base.1)];
                assert(names_view(d@) =~= seq![seq![base.1]]);
                d
            },
            None => {
                let d: Vec<String> = Vec::new();
                assert(names_view(d@) =~= Seq::empty());
                d
            },
        },
        ast::Series::List(phonemes) => bare_names(phonemes),
    };
    let at = copy_span(&label.0);
    let symbol = Symbol {
        name: label.1.clone(),
        loc: Location { source_name: state.source_name.to_owned(), span: copy_span(span) },
        value: Entity::Series { label, series },
        dependencies,
    };
    enter(project, state, symbol, &at);
}

/// Takes a word: reports that no language is set, or tags the word with the
/// current language and time, offers its symbol to the table and, where that
/// is registered, records the word.
pub fn compile_word(
    project: &mut Project,
    state: &mut CompilerState,
    span: &Span,
    gloss: Spanned<String>,
    pronunciation: Spanned<Vec<String>>,
    definitions: Vec<ast::Definition>,
)
    ensures
        final(state).source_name == old(state).source_name,
        old(project)@.wf() ==> final(project)@.wf(),
        state_view(final(project)@, *final(state)) == word_step(
            state_view(old(project)@, *old(state)),
            old(state).source_name@,
            *span,
            text_view(gloss),
            (pronunciation.0, names_view(pronunciation.1@)),
            senses_view(definitions@),
        ),
{
    match &state.current_language {
        Some(lang) => {
            let mut defs: Vec<Definition> = Vec::new();
            let mut i: usize = 0;
            while i < definitions.len()
                invariant
                    i <= definitions.len(),
                    defs@.len() == i,
                    forall|j: int|
                        0 <= j < i ==> (#[trigger] defs@[j])@ == definition_of(
                            opt_text_view(definitions@[j].pos),
                            text_view(definitions@[j].definition),
                        ),
                decreases definitions.len() - i,
            {
                defs.push(Definition::new(&definitions[i].pos, &definitions[i].definition));
                i += 1;
            }
            assert(definitions_view(defs@) =~= definitions_of(
                senses_view(definitions@),
            ));
            let tag = Tag::new(lang, &state.current_time);
            let word = Word::new(&gloss, &pronunciation, &defs, &tag);
            let symbol = Symbol {
                name: gloss.1.clone(),
                loc: Location { source_name: state.source_name.to_owned(), span: copy_span(span) },
                value: Entity::Word(word.clone()),
                dependencies: Vec::new(),
            };
            assert(names_view(symbol.dependencies@) =~= Seq::empty());
            if enter(project, state, symbol, &gloss.0) {
                assert(project.words@.push(word).map_values(|w: Word| w@) =~= project@.words.push(
                    word@,
                ));
                project.words.push(word);
            }
        },
        None => report(state, CompilationError::NoLanguage(copy_span(span))),
    }
}

/// Takes the definition of a class: offers the symbol of the class to the
/// table and then, whatever came of that, the symbol of each phoneme.
pub fn compile_class(
    project: &mut Project,
    state: &mut CompilerState,
    span: &Span,
    label: Spanned<String>,
    encodes: Vec<Spanned<String>>,
    annotates: Vec<Spanned<String>>,
    phonemes: Vec<Spanned<ast::PhonemeDef>>,
)
    ensures
        final(state).source_name == old(state).source_name,
        old(project)@.wf() ==> final(project)@.wf(),
        state_view(final(project)@, *final(state)) == class_step(
            state_view(old(project)@, *old(state)),
            old(state).source_name@,
            *span,
            text_view(label),
            texts_view(encodes@),
            texts_view(annotates@),
            phonemes_view(phonemes@),
        ),
{
    let ghost defined = phonemes_view(phonemes@);
    let mut names: Vec<String> = Vec::new();
    let mut i: usize = 0;
    while i < phonemes.len()
        invariant
            i <= phonemes.len(),
            names@.len() == i,
            forall|j: int| 0 <= j < i ==> (#[trigger] names@[j])@ == phonemes@[j].1.label.1@,
        decreases phonemes.len() - i,
    {
        names.push(phonemes[i].1.label.1.clone());
        i += 1;
    }
    assert(names_view(names@) =~= phoneme_names(defined));

    let mut dependencies = copy_names(&names);
    let mut encoded = bare_names(&encodes);
    let mut annotated = bare_names(&annotates);
    dependencies.append(&mut encoded);
    dependencies.append(&mut annotated);
    assert(names_view(dependencies@) =~= phoneme_names(defined) + bare(texts_view(encodes@)) + bare(
        texts_view(annotates@),
    ));

    let symbol = Symbol {
        name: label.1.clone(),
        loc: Location { source_name: state.source_name.to_owned(), span: copy_span(span) },
        value: Entity::Class { label: copy_text(&label), encodes, annotates, phonemes: names },
        dependencies,
    };
    enter(project, state, symbol, &label.0);

    let ghost begun = state_view(project@, *state);
    let mut i: usize = 0;
    while i < phonemes.len()
        invariant
            i <= phonemes.len(),
            defined == phonemes_view(phonemes@),
            state.source_name == old(state).source_name,
            old(project)@.wf() ==> project@.wf(),
            state_view(project@, *state) == phonemes_entered(
                begun,
                state.source_name@,
                text_view(label),
                defined.take(i as int),
            ),
        decreases phonemes.len() - i,
    {
        let phoneme = &phonemes[i];
        let member = Symbol {
            name: phoneme.1.label.1.clone(),
            loc: Location {
                source_name: state.source_name.to_owned(),
                span: copy_span(&phoneme.0),
            },
            value: Entity::Phoneme {
                class: copy_text(&label),
                label: copy_text(&phoneme.1.label),
                traits: copy_texts(&phoneme.1.traits),
            },
            dependencies: vec![label.1.clone()],
        };
        proof {
            assert(names_view(member.dependencies@) =~= seq![label.1@]);
            assert(defined.take(i + 1).drop_last() =~= defined.take(i as int));
        }
        enter(project, state, member, &phoneme.1.label.0);
        i += 1;
    }
    assert(defined.take(i as int) =~= defined);
}

/// Takes the definition of a trait: offers the symbol of the trait to the
/// table and then, whatever came of that, the symbol of each member. Every
/// member must have a label.
pub fn compile_trait(
    project: &mut Project,
    state: &mut CompilerState,
    span: &Span,
    label: Spanned<String>,
    members: Vec<Spanned<ast::TraitMember>>,
)
    requires
        forall|i: int| 0 <= i < members.len() ==> (#[trigger] members[i]).1.labels.len() > 0,
    ensures
        final(state).source_name == old(state).source_name,
        old(project)@.wf() ==> final(project)@.wf(),
        state_view(final(project)@, *final(state)) == trait_step(
            state_view(old(project)@, *old(state)),
            old(state).source_name@,
            *span,
            text_view(label),
            spanned_members_view(members@),
        ),
{
    let ghost declared = spanned_members_view(members@);
    let mut bodies: Vec<ast::TraitMember> = Vec::new();
    let mut dependencies: Vec<String> = Vec::new();
    let mut i: usize = 0;
    while i < members.len()
        invariant
            i <= members.len(),
            forall|i: int| 0 <= i < members.len() ==> (#[trigger] members[i]).1.labels.len() > 0,
            bodies@.len() == i,
            dependencies@.len() == i,
            forall|j: int|
                0 <= j < i ==> member_view(#[trigger] bodies@[j]) == member_view(members@[j].1),
            forall|j: int|
                0 <= j < i ==> (#[trigger] dependencies@[j])@ == members@[j].1.labels@[0].1@,
        decreases members.len() - i,
    {
        bodies.push(copy_member(&members[i].1));
        dependencies.push(members[i].1.labels[0].1.clone());
        i += 1;
    }
    assert(members_view(bodies@) =~= declared.map_values(
        |m: Spanned<TraitMemberView>| m.1,
    ));
    assert(names_view(dependencies@) =~= member_names(declared));

    let symbol = Symbol {
        name: label.1.clone(),
        loc: Location { source_name: state.source_name.to_owned(), span: copy_span(span) },
        value: Entity::Trait { label: copy_text(&label), members: bodies },
        dependencies,
    };
    enter(project, state, symbol, &label.0);

    let ghost begun = state_view(project@, *state);
    let mut i: usize = 0;
    while i < members.len()
        invariant
            i <= members.len(),
            forall|i: int| 0 <= i < members.len() ==> (#[trigger] members[i]).1.labels.len() > 0,
            declared == spanned_members_view(members@),
            state.source_name == old(state).source_name,
            old(project)@.wf() ==> project@.wf(),
            state_view(project@, *state) == members_entered(
                begun,
                state.source_name@,
                label.1@,
                declared.take(i as int),
            ),
        decreases members.len() - i,
    {
        let member = &members[i];
        let mut aliases: Vec<Spanned<String>> = Vec::new();
        let mut k: usize = 1;
        while k < member.1.labels.len()
            invariant
                1 <= k <= member.1.labels.len(),
                aliases@.len() == k - 1,
                forall|j: int| 0 <= j < k - 1 ==> (#[trigger] aliases@[j]) == member.1.labels@[j + 1],
            decreases member.1.labels.len() - k,
        {
            aliases.push(copy_text(&member.1.labels[k]));
            k += 1;
        }
        assert(texts_view(aliases@) =~= texts_view(member.1.labels@).skip(1));
        let entry = Symbol {
            name: member.1.labels[0].1.clone(),
            loc: Location { source_name: state.source_name.to_owned(), span: copy_span(&member.0) },
            value: Entity::TraitMember {
                label: copy_text(&member.1.labels[0]),
                aliases,
                default: member.1.default,
                notation: copy_opt_text(&member.1.notation),
            },
            dependencies: vec![label.1.clone()],
        };
        proof {
            assert(names_view(entry.dependencies@) =~= seq![label.1@]);
            assert(declared.take(i + 1).drop_last() =~= declared.take(i as int));
        }
        enter(project, state, entry, &member.1.labels[0].0);
        i += 1;
    }
    assert(declared.take(i as int) =~= declared);
}

/// Whether `name` is among `chain`.
pub fn holds(chain: &Vec<String>, name: &String) -> (r: bool)
    ensures
        r == names_view(chain@).contains(name@),
{
    let mut i: usize = 0;
    while i < chain.len()
        invariant
            i <= chain.len(),
            forall|j: int| 0 <= j < i ==> names_view(chain@)[j] != name@,
        decreases chain.len() - i,
    {
        if chain[i] == *name {
            assert(names_view(chain@)[i as int] == name@);
            return true;
        }
        i += 1;
    }
    false
}

/// Reports the errors of an import as the compiler words them for the
/// request of `name` in the import statement at `span`.
pub fn report_import_errors(
    state: &mut CompilerState,
    errors: Vec<ImportError>,
    span: &Span,
    name: &String,
)
    ensures
        final(state).source_name == old(state).source_name,
        forall|p: ProjectView| #[trigger]
            state_view(p, *final(state)) == (StateView {
                errors: state_view(p, *old(state)).errors + import_errors_view(
                    errors@,
                ).map_values(|e: ImportErrorView| import_error(e, *span, name@)),
                ..state_view(p, *old(state))
            }),
{
    let ghost all = import_errors_view(errors@);
    let ghost before = errors_view(state.errors@);
    for e in it: errors
        invariant
            import_errors_view(it.seq()) == all,
            state.source_name == old(state).source_name,
            state.current_language == old(state).current_language,
            state.current_time == old(state).current_time,
            state.warnings == old(state).warnings,
            errors_view(state.errors@) == before + all.take(it.index() as int).map_values(
                |e: ImportErrorView| import_error(e, *span, name@),
            ),
    {
        let worded = match e {
            ImportError::NoSuchSymbol(_) => CompilationError::ImportedNameNotFound(
                copy_span(span),
                name.clone(),
            ),
            ImportError::FailedDependency(dep) => CompilationError::ImportDependencyNotFound(dep),
            ImportError::NameCollision(held) => CompilationError::NameCollision(
                copy_span(span),
                held,
            ),
        };
        proof {
            let n = it.index() as int;
            assert(errors_view(state.errors@.push(worded)) =~= errors_view(state.errors@).push(
                worded@,
            ));
            assert(all.take(n + 1).map_values(|e: ImportErrorView| import_error(e, *span, name@))
                =~= all.take(n).map_values(|e: ImportErrorView| import_error(e, *span, name@)).push(
                worded@,
            ));
        }
        state.errors.push(worded);
    }
    assert(all.take(all.len() as int) =~= all);
}

/// Takes an import: resolves the path, compiles the module unless it is
/// being compiled already, takes over what that reports, and imports the
/// requested names from its project.
pub fn compile_import<R: Resolve>(
    project: &mut Project,
    state: &mut CompilerState,
    resolver: &R,
    span: Span,
    path: Vec<Spanned<String>>,
    names: Vec<Spanned<String>>,
    chain: &Vec<String>,
)
    ensures
        final(state).source_name == old(state).source_name,
        old(project)@.wf() ==> final(project)@.wf(),
        state_view(final(project)@, *final(state)) == import_step(
            state_view(old(project)@, *old(state)),
            span,
            texts_view(path@),
            texts_view(names@),
            resolver,
            names_view(chain@),
        ),
    decreases usize::MAX - chain.len(), 0int,
{
    let mut segments: Vec<&str> = Vec::new();
    let mut i: usize = 0;
    while i < path.len()
        invariant
            i <= path.len(),
            segments@.len() == i,
            forall|j: int| 0 <= j < i ==> (#[trigger] segments@[j])@ == path@[j].1@,
        decreases path.len() - i,
    {
        segments.push(path[i].1.as_str());
        i += 1;
    }
    assert(strs_view(segments@) =~= bare(texts_view(path@)));

    match resolver.resolve(segments.as_slice()) {
        Ok((source, module)) => {
            if holds(chain, &module) {
                let mut reason = "Module `".to_owned();
                reason.append(module.as_str());
                reason.append("` is imported from within itself.");
                report(state, CompilationError::BadImport(span, reason));
            } else {
                let mut inner = copy_names(chain);
                inner.push(module.clone());
                assert(names_view(inner@) =~= names_view(chain@).push(module@));
                // The longer chain is held in a `Vec`, so the shorter one is
                // within reach.
                assert(inner.len() == chain.len() + 1);
                assert(within_reach(names_view(chain@)));
                let nested = compile_within(source.as_str(), module.as_str(), resolver, &inner);
                let CompilationResult {
                    ok: _,
                    project: imported,
                    errors: mut nested_errors,
                    warnings: mut nested_warnings,
                } = nested;
                proof {
                    assert(errors_view(state.errors@ + nested_errors@) =~= errors_view(
                        state.errors@,
                    ) + errors_view(nested_errors@));
                    assert(warnings_view(state.warnings@ + nested_warnings@) =~= warnings_view(
                        state.warnings@,
                    ) + warnings_view(nested_warnings@));
                }
                state.errors.append(&mut nested_errors);
                state.warnings.append(&mut nested_warnings);

                let ghost begun = state_view(project@, *state);
                let ghost requests = texts_view(names@);
                let star = "*".to_owned();
                proof {
                    reveal_strlit("*");
                }
                let mut k: usize = 0;
                while k < names.len()
                    invariant
                        k <= names.len(),
                        star@ == wildcard(),
                        requests == texts_view(names@),
                        state.source_name == old(state).source_name,
            old(project)@.wf() ==> project@.wf(),
                        state_view(project@, *state) == names_imported(
                            begun,
                            imported@.symbols,
                            span,
                            requests.take(k as int),
                        ),
                    decreases names.len() - k,
                {
                    let request = &names[k];
                    proof {
                        assert(requests.take(k + 1).drop_last() =~= requests.take(k as int));
                    }
                    let outcome = if request.1 == star {
                        project.import_all_from(&imported)
                    } else {
                        let one = vec![request.1.as_str()];
                        assert(strs_view(one@) =~= seq![request.1@]);
                        project.import(one.as_slice(), &imported)
                    };
                    match outcome {
                        Err(errors) => report_import_errors(state, errors, &span, &request.1),
                        Ok(_) => {
                            assert(state_view(project@, *state).errors =~= state_view(
                                project@,
                                *state,
                            ).errors + Seq::<ImportErrorView>::empty().map_values(
                                |e: ImportErrorView| import_error(e, span, request.1@),
                            ));
                        },
                    }
                    k += 1;
                }
                assert(requests.take(k as int) =~= requests);
            }
        },
        Err(e) => report(state, CompilationError::BadImport(span, e.message())),
    }
}

/// Compiles a statement stream in a compilation that was reached through the
/// modules of `chain`.
pub fn compile_ast_within<R: Resolve>(
    ast: Vec<Spanned<ast::Stmt>>,
    source_name: &str,
    resolver: &R,
    chain: &Vec<String>,
) -> (r: CompilationResult)
    requires
        all_well_formed(stmts_view(ast@)),
    ensures
        r@ == compiled(stmts_view(ast@), source_name@, resolver, names_view(chain@)),
        r@.project.wf(),
        r.ok <==> r.errors.len() == 0,
    decreases usize::MAX - chain.len(), 1int,
{
    let ghost all = stmts_view(ast@);
    let mut project = Project::new();
    let mut state = CompilerState::new(source_name);
    for item in it: ast
        invariant
            stmts_view(it.seq()) == all,
            all_well_formed(all),
            state.source_name == source_name,
            project@.wf(),
            state_view(project@, state) == run(
                all.take(it.index() as int),
                source_name@,
                resolver,
                names_view(chain@),
            ),
    {
        proof {
            let n = it.index() as int;
            assert(all.take(n + 1).drop_last() =~= all.take(n));
        }
        let ghost before = state_view(project@, state);
        let ghost at = item.0;
        let ghost taken = stmt_view(item.1);
        let (span, stmt) = item;
        match stmt {
            ast::Stmt::Milestone { time, language } => compile_milestone(
                &mut project,
                &mut state,
                &span,
                time,
                language,
            ),
            ast::Stmt::SoundChange { source, target, environment, description } => {
                compile_sound_change(
                    &mut project,
                    &mut state,
                    span,
                    source,
                    target,
                    environment,
                    description,
                )
            },
            ast::Stmt::Language { id, parent, name } => compile_language(
                &mut project,
                &mut state,
                &span,
                id,
                parent,
                name,
            ),
            ast::Stmt::Word { gloss, pronunciation, definitions } => compile_word(
                &mut project,
                &mut state,
                &span,
                gloss,
                pronunciation,
                definitions,
            ),
            ast::Stmt::Class { label, encodes, annotates, phonemes } => compile_class(
                &mut project,
                &mut state,
                &span,
                label,
                encodes,
                annotates,
                phonemes,
            ),
            ast::Stmt::Series { label, series } => compile_series(
                &mut project,
                &mut state,
                &span,
                label,
                series,
            ),
            ast::Stmt::Trait { label, members } => {
                proof {
                    let declared = spanned_members_view(members@);
                    assert forall|i: int| 0 <= i < members.len() implies (
                    #[trigger] members[i]).1.labels.len() > 0 by {
                        assert(declared[i].1.labels.len() > 0);
                    }
                }
                compile_trait(&mut project, &mut state, &span, label, members)
            },
            ast::Stmt::Import { path, names, .. } => compile_import(
                &mut project,
                &mut state,
                resolver,
                span,
                path,
                names,
                chain,
            ),
        }
        assert(state_view(project@, state) == step(
            before,
            source_name@,
            at,
            taken,
            resolver,
            names_view(chain@),
        ));
    }
    assert(all.take(all.len() as int) =~= all);
    CompilationResult {
        ok: state.errors.len() == 0,
        project,
        errors: state.errors,
        warnings: state.warnings,
    }
}

/// What a compilation comes to where the source did not parse: it is not in
/// order, its one error holds the parse errors as they are, each with its
/// span and its message, its project is empty and it warns of nothing.
pub fn parse_failure(errors: Vec<Spanned<String>>) -> (r: CompilationResult)
    ensures
        !r.ok,
        r.errors@ == seq![CompilationError::ParseErrors(errors)],
        r.project@ == empty_project(),
        r.warnings@ == Seq::<CompilationWarning>::empty(),
        r@ == (ResultView {
            ok: false,
            project: empty_project(),
            errors: seq![ErrorView::ParseErrors(errors@.map_values(|e: Spanned<String>| e.0))],
            warnings: Seq::empty(),
        }),
{
    let r = CompilationResult {
        ok: false,
        project: Project::new(),
        warnings: Vec::new(),
        errors: vec![CompilationError::ParseErrors(errors)],
    };
    assert(r.errors@ =~= seq![CompilationError::ParseErrors(errors)]);
    assert(r@.errors =~= seq![
        ErrorView::ParseErrors(errors@.map_values(|e: Spanned<String>| e.0)),
    ]);
    assert(r@.warnings =~= Seq::empty());
    r
}

/// Compiles a source text in a compilation that was reached through the
/// modules of `chain`.
pub fn compile_within<R: Resolve>(
    source: &str,
    source_name: &str,
    resolver: &R,
    chain: &Vec<String>,
) -> (r: CompilationResult)
    ensures
        r@ == compilation(source@, source_name@, resolver, names_view(chain@)),
        r@.project.wf(),
        r.ok <==> r.errors.len() == 0,
    decreases usize::MAX - chain.len(), 2int,
{
    match parse_source(source) {
        Ok(ast) => compile_ast_within(ast, source_name, resolver, chain),
        Err(errors) => parse_failure(errors),
    }
}

/// Compiles a statement stream: the statements are taken in order, and
/// imports are followed through `resolver`.
pub fn compile_ast<R: Resolve>(ast: Vec<Spanned<ast::Stmt>>, source_name: &str, resolver: &R) -> (r:
    CompilationResult)
    requires
        all_well_formed(stmts_view(ast@)),
    ensures
        r@ == compiled(stmts_view(ast@), source_name@, resolver, Seq::empty()),
        r@.project.wf(),
        r.ok <==> r.errors.len() == 0,
{
    let chain: Vec<String> = Vec::new();
    assert(names_view(chain@) =~= Seq::empty());
    compile_ast_within(ast, source_name, resolver, &chain)
}

/// Compiles a source text: it is parsed, and its statements are compiled.
/// Where it does not parse, the result holds the parse errors and nothing
/// else.
pub fn compile<R: Resolve>(source: &str, source_name: &str, resolver: &R) -> (r: CompilationResult)
    ensures
        r@ == compilation(source@, source_name@, resolver, Seq::empty()),
        r@.project.wf(),
        r.ok <==> r.errors.len() == 0,
{
    let chain: Vec<String> = Vec::new();
    assert(names_view(chain@) =~= Seq::empty());
    compile_within(source, source_name, resolver, &chain)
}

/// The paths of the modules that a source text imports, in the order of its
/// import statements; none where the text does not parse. Whoever keeps
/// modules where they must be fetched learns from this what to fetch before
/// compiling.
pub fn imports_of(source: &str) -> (r: Vec<Vec<String>>)
    ensures
        paths_view(r@) == match parsed(source@) {
            Ok(stmts) => imported_paths(stmts),
            Err(_) => Seq::empty(),
        },
{
    let mut paths: Vec<Vec<String>> = Vec::new();
    match parse_source(source) {
        Ok(ast) => {
            let ghost all = stmts_view(ast@);
            let mut i: usize = 0;
            while i < ast.len()
                invariant
                    i <= ast.len(),
                    all == stmts_view(ast@),
                    paths_view(paths@) == imported_paths(all.take(i as int)),
                decreases ast.len() - i,
            {
                proof {
                    assert(all.take(i + 1).drop_last() =~= all.take(i as int));
                }
                match &ast[i].1 {
                    ast::Stmt::Import { path, .. } => {
                        let segments = bare_names(path);
                        paths.push(segments);
                    },
                    _ => {},
                }
                i += 1;
            }
            assert(all.take(i as int) =~= all);
        },
        Err(_) => {
            assert(paths_view(paths@) =~= Seq::empty());
        },
    }
    paths
}

} // verus!
