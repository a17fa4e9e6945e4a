//! What compiling means: the state that a compilation is in, what each kind
//! of statement makes of it, and what a stream and a source text come to.
//! The contracts of the compiler are stated over these functions.

use crate::compiler::{ErrorView, ResultView, WarningView};
use crate::language::language_of;
use crate::parsing::parsed;
use crate::project::{
    empty_project, import_outcome, lookup, names_of, EntityView, ImportErrorView, LocationView,
    ProjectView, SoundChangeView, SymbolView,
};
use crate::resolver::{message_of, Resolve};
use crate::syntax::{
    instant_of, names_view, PhonemeView, SenseView, SeriesView, Span, Spanned, StmtView, Text,
    TraitMemberView,
};
use crate::tag::tag_of;
use crate::word::{definition_of, word_of, DefinitionView};
use chronlang_parser::ast;
use core::ops::Range;
use vstd::prelude::*;

verus! {

/// How far a compilation has come: the project so far, the language and the
/// time that the next statement stands in, and what was reported.
pub struct StateView {
    pub project: ProjectView,
    pub language: Option<Spanned<Text>>,
    pub time: Spanned<ast::Time>,
    pub errors: Seq<ErrorView>,
    pub warnings: Seq<WarningView>,
}

/// Where every compilation starts: nothing gathered, no language set, the
/// time at instant 0.
pub open spec fn initial_state() -> StateView {
    StateView {
        project: empty_project(),
        language: None,
        time: (Range { start: 0usize, end: 0usize }, ast::Time::Instant(0)),
        errors: Seq::empty(),
        warnings: Seq::empty(),
    }
}

/// The state with one more error reported.
pub open spec fn with_error(st: StateView, error: ErrorView) -> StateView {
    StateView { errors: st.errors.push(error), ..st }
}

/// The state after `symbol` was offered to the table: it is registered, or,
/// where its name is taken, a collision at `at` is reported with the symbol
/// that holds the name.
pub open spec fn entered(st: StateView, symbol: SymbolView, at: Span) -> StateView {
    match lookup(st.project.symbols, symbol.name) {
        Some(held) => with_error(st, ErrorView::NameCollision(at, held)),
        None => StateView {
            project: ProjectView { symbols: st.project.symbols.push(symbol), ..st.project },
            ..st
        },
    }
}

/// A milestone: the time, if given, becomes the current time and its
/// instant joins the milestones; the language, if given, becomes the current
/// language. Without a language, and with no tag made so far, the milestone
/// is reported. Then, if a language is current, a tag for it and the current
/// time joins the tags.
pub open spec fn milestone_step(
    st: StateView,
    span: Span,
    time: Option<Spanned<ast::Time>>,
    language: Option<Spanned<Text>>,
) -> StateView {
    let milestones = match time {
        Some(t) => st.project.milestones.push(instant_of(t.1)),
        None => st.project.milestones,
    };
    let now = match time {
        Some(t) => t,
        None => st.time,
    };
    let current = match language {
        Some(l) => Some(l),
        None => st.language,
    };
    let errors = if language is None && st.project.tags.len() == 0 {
        st.errors.push(ErrorView::FirstTagNoLanguage(span))
    } else {
        st.errors
    };
    let tags = match current {
        Some(l) => st.project.tags.push(tag_of(l, now)),
        None => st.project.tags,
    };
    StateView {
        project: ProjectView { milestones, tags, ..st.project },
        language: current,
        time: now,
        errors,
        warnings: st.warnings,
    }
}

/// A sound change: with a language current it joins the sound changes,
/// tagged with the current language and time; without one it is reported.
pub open spec fn sound_change_step(
    st: StateView,
    source_name: Text,
    span: Span,
    source: Spanned<ast::Source>,
    target: Spanned<ast::Target>,
    environment: Option<Spanned<ast::Environment>>,
    description: Option<Spanned<Text>>,
) -> StateView {
    match st.language {
        Some(l) => StateView {
            project: ProjectView {
                sound_changes: st.project.sound_changes.push(
                    SoundChangeView {
                        source_name,
                        source,
                        target,
                        environment,
                        description,
                        tag: tag_of(l, st.time),
                    },
                ),
                ..st.project
            },
            ..st
        },
        None => with_error(st, ErrorView::NoLanguage(span)),
    }
}

/// The symbol that a language declaration makes. It depends on the parent,
/// if there is one.
pub open spec fn language_symbol(
    source_name: Text,
    span: Span,
    id: Spanned<Text>,
    parent: Option<Spanned<Text>>,
    name: Option<Spanned<Text>>,
) -> SymbolView {
    SymbolView {
        name: id.1,
        loc: LocationView { source_name, span },
        value: EntityView::Language(language_of(id, name, parent)),
        dependencies: match parent {
            Some(p) => seq![p.1],
            None => Seq::empty(),
        },
    }
}

/// A language declaration: its symbol is offered to the table, with the
/// identifier as the place of a collision; where it is registered, the
/// language joins the languages.
pub open spec fn language_step(
    st: StateView,
    source_name: Text,
    span: Span,
    id: Spanned<Text>,
    parent: Option<Spanned<Text>>,
    name: Option<Spanned<Text>>,
) -> StateView {
    let after = entered(st, language_symbol(source_name, span, id, parent, name), id.0);
    if lookup(st.project.symbols, id.1) is None {
        StateView {
            project: ProjectView {
                languages: st.project.languages.push(language_of(id, name, parent)),
                ..after.project
            },
            ..after
        }
    } else {
        after
    }
}

/// The definitions that a word statement's senses make.
pub open spec fn definitions_of(senses: Seq<SenseView>) -> Seq<DefinitionView> {
    senses.map_values(|s: SenseView| definition_of(s.pos, s.definition))
}

/// A word: without a language current it is reported. With one, the word is
/// tagged with the current language and time, and its symbol, which depends
/// on nothing, is offered to the table, with the gloss as the place of a
/// collision; where it is registered, the word joins the words.
pub open spec fn word_step(
    st: StateView,
    source_name: Text,
    span: Span,
    gloss: Spanned<Text>,
    pronunciation: Spanned<Seq<Text>>,
    senses: Seq<SenseView>,
) -> StateView {
    match st.language {
        Some(l) => {
            let word = word_of(gloss, pronunciation, definitions_of(senses), tag_of(l, st.time));
            let symbol = SymbolView {
                name: gloss.1,
                loc: LocationView { source_name, span },
                value: EntityView::Word(word),
                dependencies: Seq::empty(),
            };
            let after = entered(st, symbol, gloss.0);
            if lookup(st.project.symbols, gloss.1) is None {
                StateView {
                    project: ProjectView { words: st.project.words.push(word), ..after.project },
                    ..after
                }
            } else {
                after
            }
        },
        None => with_error(st, ErrorView::NoLanguage(span)),
    }
}

/// The strings of spanned strings, in their order.
pub open spec fn bare(v: Seq<Spanned<Text>>) -> Seq<Text> {
    v.map_values(|s: Spanned<Text>| s.1)
}

/// The labels of the phonemes, in their order.
pub open spec fn phoneme_names(phonemes: Seq<Spanned<PhonemeView>>) -> Seq<Text> {
    phonemes.map_values(|p: Spanned<PhonemeView>| p.1.label.1)
}

/// The symbol of a class. It depends on its phonemes, then on what it
/// encodes, then on what it annotates.
pub open spec fn class_symbol(
    source_name: Text,
    span: Span,
    label: Spanned<Text>,
    encodes: Seq<Spanned<Text>>,
    annotates: Seq<Spanned<Text>>,
    phonemes: Seq<Spanned<PhonemeView>>,
) -> SymbolView {
    SymbolView {
        name: label.1,
        loc: LocationView { source_name, span },
        value: EntityView::Class { label, encodes, annotates, phonemes: phoneme_names(phonemes) },
        dependencies: phoneme_names(phonemes) + bare(encodes) + bare(annotates),
    }
}

/// The symbol of a phoneme of the class `class`. It depends on the class.
pub open spec fn phoneme_symbol(
    source_name: Text,
    class: Spanned<Text>,
    phoneme: Spanned<PhonemeView>,
) -> SymbolView {
    SymbolView {
        name: phoneme.1.label.1,
        loc: LocationView { source_name, span: phoneme.0 },
        value: EntityView::Phoneme { class, label: phoneme.1.label, traits: phoneme.1.traits },
        dependencies: seq![class.1],
    }
}

/// The phonemes of a class are offered to the table one after the other,
/// each with its label as the place of a collision.
pub open spec fn phonemes_entered(
    st: StateView,
    source_name: Text,
    class: Spanned<Text>,
    phonemes: Seq<Spanned<PhonemeView>>,
) -> StateView
    decreases phonemes.len(),
{
    if phonemes.len() == 0 {
        st
    } else {
        entered(
            phonemes_entered(st, source_name, class, phonemes.drop_last()),
            phoneme_symbol(source_name, class, phonemes.last()),
            phonemes.last().1.label.0,
        )
    }
}

/// A class: its symbol is offered to the table, with the label as the place
/// of a collision, and then, whatever came of that, each of its phonemes.
pub open spec fn class_step(
    st: StateView,
    source_name: Text,
    span: Span,
    label: Spanned<Text>,
    encodes: Seq<Spanned<Text>>,
    annotates: Seq<Spanned<Text>>,
    phonemes: Seq<Spanned<PhonemeView>>,
) -> StateView {
    phonemes_entered(
        entered(
            st,
            class_symbol(source_name, span, label, encodes, annotates, phonemes),
            label.0,
        ),
        source_name,
        label,
        phonemes,
    )
}

/// The names that a series depends on: the phonemes that it lists, or the
/// base class of its category, if it has one.
pub open spec fn series_dependencies(series: SeriesView) -> Seq<Text> {
    match series {
        SeriesView::Category(c) => match c.base_class {
            Some(b) => seq![seq![b.1]],
            None => Seq::empty(),
        },
        SeriesView::List(phonemes) => bare(phonemes),
    }
}

/// A series: its symbol is offered to the table, with the label as the
/// place of a collision.
pub open spec fn series_step(
    st: StateView,
    source_name: Text,
    span: Span,
    label: Spanned<Text>,
    series: Spanned<SeriesView>,
) -> StateView {
    entered(
        st,
        SymbolView {
            name: label.1,
            loc: LocationView { source_name, span },
            value: EntityView::Series { label, series },
            dependencies: series_dependencies(series.1),
        },
        label.0,
    )
}

/// The first labels of the members, in their order.
pub open spec fn member_names(members: Seq<Spanned<TraitMemberView>>) -> Seq<Text> {
    members.map_values(|m: Spanned<TraitMemberView>| m.1.labels[0].1)
}

/// The symbol of a trait. It depends on its members.
pub open spec fn trait_symbol(
    source_name: Text,
    span: Span,
    label: Spanned<Text>,
    members: Seq<Spanned<TraitMemberView>>,
) -> SymbolView {
    SymbolView {
        name: label.1,
        loc: LocationView { source_name, span },
        value: EntityView::Trait {
            label,
            members: members.map_values(|m: Spanned<TraitMemberView>| m.1),
        },
        dependencies: member_names(members),
    }
}

/// The symbol of a member of the trait called `trait_name`: it goes by its
/// first label, the others are its aliases. It depends on the trait.
pub open spec fn member_symbol(
    source_name: Text,
    trait_name: Text,
    member: Spanned<TraitMemberView>,
) -> SymbolView {
    SymbolView {
        name: member.1.labels[0].1,
        loc: LocationView { source_name, span: member.0 },
        value: EntityView::TraitMember {
            label: member.1.labels[0],
            aliases: member.1.labels.skip(1),
            default: member.1.default,
            notation: member.1.notation,
        },
        dependencies: seq![trait_name],
    }
}

/// The members of a trait are offered to the table one after the other,
/// each with its first label as the place of a collision.
pub open spec fn members_entered(
    st: StateView,
    source_name: Text,
    trait_name: Text,
    members: Seq<Spanned<TraitMemberView>>,
) -> StateView
    decreases members.len(),
{
    if members.len() == 0 {
        st
    } else {
        entered(
            members_entered(st, source_name, trait_name, members.drop_last()),
            member_symbol(source_name, trait_name, members.last()),
            members.last().1.labels[0].0,
        )
    }
}

/// A trait: its symbol is offered to the table, with the label as the place
/// of a collision, and then, whatever came of that, each of its members.
pub open spec fn trait_step(
    st: StateView,
    source_name: Text,
    span: Span,
    label: Spanned<Text>,
    members: Seq<Spanned<TraitMemberView>>,
) -> StateView {
    members_entered(
        entered(st, trait_symbol(source_name, span, label, members), label.0),
        source_name,
        label.1,
        members,
    )
}

/// The name that asks for every symbol of a module.
pub open spec fn wildcard() -> Text {
    seq!['*']
}

/// An import error as the compiler reports it for the request of `name` in
/// the import statement at `span`.
pub open spec fn import_error(e: ImportErrorView, span: Span, name: Text) -> ErrorView {
    match e {
        ImportErrorView::NoSuchSymbol(_) => ErrorView::ImportedNameNotFound(span, name),
        ImportErrorView::FailedDependency(dep) => ErrorView::ImportDependencyNotFound(dep),
        ImportErrorView::NameCollision(held) => ErrorView::NameCollision(span, held),
    }
}

/// The names that a request asks for: every name of the module, where it is
/// the wildcard, and else the one that it names.
pub open spec fn requested_names(module: Seq<SymbolView>, request: Text) -> Seq<Text> {
    if request == wildcard() {
        names_of(module)
    } else {
        seq![request]
    }
}

/// One requested name of the import statement at `span` is imported from
/// the table `module`: the wildcard stands for all the names of the module.
/// The errors of the import are reported at the span of the statement.
pub open spec fn name_imported(
    st: StateView,
    module: Seq<SymbolView>,
    span: Span,
    request: Spanned<Text>,
) -> StateView {
    let outcome = import_outcome(st.project.symbols, requested_names(module, request.1), module);
    StateView {
        project: ProjectView { symbols: outcome.symbols, ..st.project },
        errors: st.errors + outcome.errors.map_values(
            |e: ImportErrorView| import_error(e, span, request.1),
        ),
        ..st
    }
}

/// The requested names of the import statement at `span` are imported one
/// after the other.
pub open spec fn names_imported(
    st: StateView,
    module: Seq<SymbolView>,
    span: Span,
    requests: Seq<Spanned<Text>>,
) -> StateView
    decreases requests.len(),
{
    if requests.len() == 0 {
        st
    } else {
        name_imported(
            names_imported(st, module, span, requests.drop_last()),
            module,
            span,
            requests.last(),
        )
    }
}

/// The reason given for not following an import of a module that is being
/// compiled already.
pub open spec fn cycle_message(module: Text) -> Text {
    "Module `"@ + module + "` is imported from within itself."@
}

/// The state in which an import finds the table, once what the imported
/// module reported is taken over as it is.
pub open spec fn with_reports(st: StateView, nested: ResultView) -> StateView {
    StateView {
        errors: st.errors + nested.errors,
        warnings: st.warnings + nested.warnings,
        ..st
    }
}

/// A chain of modules that a compilation can have been reached through: it
/// is held in memory, so it is shorter than any `usize`.
pub open spec fn within_reach(chain: Seq<Text>) -> bool {
    chain.len() < usize::MAX
}

/// An import is followed to the module called `module`, whose source is
/// `text`: the module is compiled, what that reports is taken over as it is,
/// and the requested names are imported from its project. This is said of
/// every chain that is within reach; of another chain nothing is said.
pub open spec fn followed<R: Resolve>(
    st: StateView,
    span: Span,
    requests: Seq<Spanned<Text>>,
    text: Text,
    module: Text,
    resolver: &R,
    chain: Seq<Text>,
) -> StateView
    decreases usize::MAX - chain.len(), 0int, 0int,
    when within_reach(chain)
{
    let nested = compilation(text, module, resolver, chain.push(module));
    names_imported(with_reports(st, nested), nested.project.symbols, span, requests)
}

/// An import, in a compilation that was reached through the modules of
/// `chain`. Where the resolver has no answer, its reason is reported as a bad
/// import; so is a module that is among `chain`, which is being compiled
/// already. Every other module is followed.
pub open spec fn import_step<R: Resolve>(
    st: StateView,
    span: Span,
    path: Seq<Spanned<Text>>,
    requests: Seq<Spanned<Text>>,
    resolver: &R,
    chain: Seq<Text>,
) -> StateView
    decreases usize::MAX - chain.len(), 1int, 0int,
{
    match resolver.resolution(bare(path)) {
        Ok((text, module)) => {
            if chain.contains(module) {
                with_error(st, ErrorView::BadImport(span, cycle_message(module)))
            } else {
                followed(st, span, requests, text, module, resolver, chain)
            }
        },
        Err(e) => with_error(st, ErrorView::BadImport(span, message_of(e))),
    }
}

/// One statement, at `span` of the source called `source_name`.
pub open spec fn step<R: Resolve>(
    st: StateView,
    source_name: Text,
    span: Span,
    stmt: StmtView,
    resolver: &R,
    chain: Seq<Text>,
) -> StateView
    decreases usize::MAX - chain.len(), 2int, 0int,
{
    match stmt {
        StmtView::Milestone { time, language } => milestone_step(st, span, time, language),
        StmtView::SoundChange { source, target, environment, description } => sound_change_step(
            st,
            source_name,
            span,
            source,
            target,
            environment,
            description,
        ),
        StmtView::Language { id, parent, name } => language_step(
            st,
            source_name,
            span,
            id,
            parent,
            name,
        ),
        StmtView::Word { gloss, pronunciation, definitions } => word_step(
            st,
            source_name,
            span,
            gloss,
            pronunciation,
            definitions,
        ),
        StmtView::Class { label, encodes, annotates, phonemes } => class_step(
            st,
            source_name,
            span,
            label,
            encodes,
            annotates,
            phonemes,
        ),
        StmtView::Series { label, series } => series_step(st, source_name, span, label, series),
        StmtView::Trait { label, members } => trait_step(st, source_name, span, label, members),
        StmtView::Import { path, absolute, names } => import_step(
            st,
            span,
            path,
            names,
            resolver,
            chain,
        ),
    }
}

/// The statements of a stream, taken in order from the initial state.
pub open spec fn run<R: Resolve>(
    stmts: Seq<Spanned<StmtView>>,
    source_name: Text,
    resolver: &R,
    chain: Seq<Text>,
) -> StateView
    decreases usize::MAX - chain.len(), 3int, stmts.len(),
{
    if stmts.len() == 0 {
        initial_state()
    } else {
        step(
            run(stmts.drop_last(), source_name, resolver, chain),
            source_name,
            stmts.last().0,
            stmts.last().1,
            resolver,
            chain,
        )
    }
}

/// The result that a final state makes: it is in order exactly when no
/// error was reported.
pub open spec fn finished(st: StateView) -> ResultView {
    ResultView {
        ok: st.errors.len() == 0,
        project: st.project,
        errors: st.errors,
        warnings: st.warnings,
    }
}

/// What compiling a statement stream comes to.
pub open spec fn compiled<R: Resolve>(
    stmts: Seq<Spanned<StmtView>>,
    source_name: Text,
    resolver: &R,
    chain: Seq<Text>,
) -> ResultView
    decreases usize::MAX - chain.len(), 4int, 0int,
{
    finished(run(stmts, source_name, resolver, chain))
}

/// What compiling a source text comes to: where it does not parse, the
/// parse errors alone, with an empty project; else what its statements come
/// to.
pub open spec fn compilation<R: Resolve>(
    source: Text,
    source_name: Text,
    resolver: &R,
    chain: Seq<Text>,
) -> ResultView
    decreases usize::MAX - chain.len(), 5int, 0int,
{
    match parsed(source) {
        Ok(stmts) => compiled(stmts, source_name, resolver, chain),
        Err(spans) => ResultView {
            ok: false,
            project: empty_project(),
            errors: seq![ErrorView::ParseErrors(spans)],
            warnings: Seq::empty(),
        },
    }
}

/// The paths of the modules that the statements import, in the order of
/// the import statements.
pub open spec fn imported_paths(stmts: Seq<Spanned<StmtView>>) -> Seq<Seq<Text>>
    decreases stmts.len(),
{
    if stmts.len() == 0 {
        Seq::empty()
    } else {
        let before = imported_paths(stmts.drop_last());
        match stmts.last().1 {
            StmtView::Import { path, absolute, names } => before.push(bare(path)),
            _ => before,
        }
    }
}

/// Paths, each seen as the characters of its segments.
pub open spec fn paths_view(v: Seq<Vec<String>>) -> Seq<Seq<Text>> {
    v.map_values(|p: Vec<String>| names_view(p@))
}

} // verus!
