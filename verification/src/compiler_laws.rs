//! What holds of every compilation, whatever the statements are.

use crate::compiler::{ErrorView, ResultView};
use crate::parsing::parsed;
use crate::project::{
    closure, distinct_names, empty_project, import_outcome, known_names, lemma_lookup_found,
    lookup, names_of, EntityView, ImportErrorView, LocationView, ProjectView, SymbolView,
};
use crate::resolver::{message_of, Resolve};
use crate::semantics::{
    bare, class_step, class_symbol, compilation, compiled, cycle_message, definitions_of,
    entered, import_error, import_step, language_step, language_symbol, member_symbol,
    members_entered, milestone_step, name_imported, names_imported, phoneme_symbol,
    phonemes_entered, requested_names, run, series_dependencies, sound_change_step, step,
    trait_symbol, wildcard, with_error, with_reports, within_reach, word_step, StateView,
};
use crate::syntax::{
    instant_of, PhonemeView, SenseView, Span, Spanned, StmtView, Text, TraitMemberView,
};
use crate::table_laws::{
    law_import_brings_the_closure, law_import_does_not_overwrite,
    law_missing_dependency_is_reported, law_requested_name_is_brought,
    law_second_registration_is_rejected, lemma_lookup_extends, lemma_registered_all_extends,
};
use crate::tag::tag_of;
use crate::word::word_of;
use chronlang_parser::ast;
use vstd::prelude::*;

verus! {

/// The result in which nothing was gathered and nothing reported.
pub open spec fn clean_result() -> ResultView {
    ResultView {
        ok: true,
        project: empty_project(),
        errors: Seq::empty(),
        warnings: Seq::empty(),
    }
}

/// A stream without statements compiles to an empty project, in order, with
/// no error and no warning; so does a source that parses to no statement.
pub proof fn law_nothing_from_nothing<R: Resolve>(
    source: Text,
    source_name: Text,
    resolver: &R,
    chain: Seq<Text>,
)
    ensures
        compiled(Seq::empty(), source_name, resolver, chain) == clean_result(),
        parsed(source) == Ok::<Seq<Spanned<StmtView>>, Seq<Span>>(Seq::empty()) ==> compilation(
            source,
            source_name,
            resolver,
            chain,
        ) == clean_result(),
{
}

/// A compilation is in order exactly when it reports no error.
pub proof fn law_in_order_without_errors<R: Resolve>(
    source: Text,
    stmts: Seq<Spanned<StmtView>>,
    source_name: Text,
    resolver: &R,
    chain: Seq<Text>,
)
    ensures
        compiled(stmts, source_name, resolver, chain).ok <==> compiled(
            stmts,
            source_name,
            resolver,
            chain,
        ).errors.len() == 0,
        compilation(source, source_name, resolver, chain).ok <==> compilation(
            source,
            source_name,
            resolver,
            chain,
        ).errors.len() == 0,
{
}

/// `b` holds all that `a` holds, each thing in its place, and what it holds
/// beyond that comes after.
pub open spec fn grown_from(b: StateView, a: StateView) -> bool {
    &&& a.errors.is_prefix_of(b.errors)
    &&& a.warnings.is_prefix_of(b.warnings)
    &&& a.project.symbols.is_prefix_of(b.project.symbols)
    &&& a.project.milestones.is_prefix_of(b.project.milestones)
    &&& a.project.languages.is_prefix_of(b.project.languages)
    &&& a.project.words.is_prefix_of(b.project.words)
    &&& a.project.sound_changes.is_prefix_of(b.project.sound_changes)
    &&& a.project.tags.is_prefix_of(b.project.tags)
}

/// The two states stand in the same language at the same time, with the
/// same tags and milestones behind them.
pub open spec fn same_context(a: StateView, b: StateView) -> bool {
    &&& a.language == b.language
    &&& a.time == b.time
    &&& a.project.tags == b.project.tags
    &&& a.project.milestones == b.project.milestones
}

/// A sequence is the beginning of itself and of itself with one more.
proof fn lemma_prefix_push<T>(a: Seq<T>, x: T)
    ensures
        a.is_prefix_of(a.push(x)),
        a.is_prefix_of(a),
{
    assert(a =~= a.subrange(0, a.len() as int));
}

/// A sequence is the beginning of itself with more behind it.
proof fn lemma_prefix_add<T>(a: Seq<T>, b: Seq<T>)
    ensures
        a.is_prefix_of(a + b),
{
    assert(a =~= (a + b).subrange(0, a.len() as int));
}

/// The beginning of a beginning is a beginning.
proof fn lemma_prefix_trans<T>(a: Seq<T>, b: Seq<T>, c: Seq<T>)
    requires
        a.is_prefix_of(b),
        b.is_prefix_of(c),
    ensures
        a.is_prefix_of(c),
{
    assert(a =~= c.subrange(0, a.len() as int)) by {
        assert forall|i: int| 0 <= i < a.len() implies a[i] == c[i] by {
            assert(b[i] == c.subrange(0, b.len() as int)[i]);
        }
    }
}

/// What the beginning of a sequence holds, the sequence holds.
proof fn lemma_prefix_holds<T>(a: Seq<T>, b: Seq<T>, x: T)
    requires
        a.is_prefix_of(b),
        a.contains(x),
    ensures
        b.contains(x),
{
}

/// A state has grown from itself.
proof fn lemma_grown_refl(a: StateView)
    ensures
        grown_from(a, a),
{
    lemma_prefix_push(a.errors, arbitrary());
    lemma_prefix_push(a.warnings, arbitrary());
    lemma_prefix_push(a.project.symbols, arbitrary());
    lemma_prefix_push(a.project.milestones, arbitrary());
    lemma_prefix_push(a.project.languages, arbitrary());
    lemma_prefix_push(a.project.words, arbitrary());
    lemma_prefix_push(a.project.sound_changes, arbitrary());
    lemma_prefix_push(a.project.tags, arbitrary());
}

/// What has grown from a state that has grown from another has grown from
/// that one.
proof fn lemma_grown_trans(a: StateView, b: StateView, c: StateView)
    requires
        grown_from(b, a),
        grown_from(c, b),
    ensures
        grown_from(c, a),
{
    lemma_prefix_trans(a.errors, b.errors, c.errors);
    lemma_prefix_trans(a.warnings, b.warnings, c.warnings);
    lemma_prefix_trans(a.project.symbols, b.project.symbols, c.project.symbols);
    lemma_prefix_trans(a.project.milestones, b.project.milestones, c.project.milestones);
    lemma_prefix_trans(a.project.languages, b.project.languages, c.project.languages);
    lemma_prefix_trans(a.project.words, b.project.words, c.project.words);
    lemma_prefix_trans(a.project.sound_changes, b.project.sound_changes, c.project.sound_changes);
    lemma_prefix_trans(a.project.tags, b.project.tags, c.project.tags);
}

/// Reporting an error adds it and changes nothing else.
proof fn lemma_with_error(st: StateView, error: ErrorView)
    ensures
        grown_from(with_error(st, error), st),
        same_context(st, with_error(st, error)),
        distinct_names(st.project.symbols) ==> distinct_names(
            with_error(st, error).project.symbols,
        ),
        with_error(st, error).errors.contains(error),
{
    lemma_grown_refl(st);
    lemma_prefix_push(st.errors, error);
    assert(st.errors.push(error)[st.errors.len() as int] == error);
}

/// Offering a symbol to the table only adds, and keeps the names distinct.
proof fn lemma_entered(st: StateView, symbol: SymbolView, at: Span)
    ensures
        grown_from(entered(st, symbol, at), st),
        same_context(st, entered(st, symbol, at)),
        distinct_names(st.project.symbols) ==> distinct_names(
            entered(st, symbol, at).project.symbols,
        ),
{
    lemma_grown_refl(st);
    lemma_prefix_push(st.project.symbols, symbol);
    lemma_lookup_found(st.project.symbols, symbol.name);
    match lookup(st.project.symbols, symbol.name) {
        Some(held) => lemma_with_error(st, ErrorView::NameCollision(at, held)),
        None => {},
    }
}

/// Offering the phonemes of a class to the table only adds.
proof fn lemma_phonemes_entered(
    st: StateView,
    source_name: Text,
    class: Spanned<Text>,
    phonemes: Seq<Spanned<PhonemeView>>,
)
    ensures
        grown_from(phonemes_entered(st, source_name, class, phonemes), st),
        same_context(st, phonemes_entered(st, source_name, class, phonemes)),
        distinct_names(st.project.symbols) ==> distinct_names(
            phonemes_entered(st, source_name, class, phonemes).project.symbols,
        ),
    decreases phonemes.len(),
{
    if phonemes.len() == 0 {
        lemma_grown_refl(st);
    } else {
        let before = phonemes_entered(st, source_name, class, phonemes.drop_last());
        lemma_phonemes_entered(st, source_name, class, phonemes.drop_last());
        lemma_entered(
            before,
            phoneme_symbol(source_name, class, phonemes.last()),
            phonemes.last().1.label.0,
        );
        lemma_grown_trans(st, before, phonemes_entered(st, source_name, class, phonemes));
    }
}

/// Offering the members of a trait to the table only adds.
proof fn lemma_members_entered(
    st: StateView,
    source_name: Text,
    trait_name: Text,
    members: Seq<Spanned<TraitMemberView>>,
)
    ensures
        grown_from(members_entered(st, source_name, trait_name, members), st),
        same_context(st, members_entered(st, source_name, trait_name, members)),
        distinct_names(st.project.symbols) ==> distinct_names(
            members_entered(st, source_name, trait_name, members).project.symbols,
        ),
    decreases members.len(),
{
    if members.len() == 0 {
        lemma_grown_refl(st);
    } else {
        let before = members_entered(st, source_name, trait_name, members.drop_last());
        lemma_members_entered(st, source_name, trait_name, members.drop_last());
        lemma_entered(
            before,
            member_symbol(source_name, trait_name, members.last()),
            members.last().1.labels[0].0,
        );
        lemma_grown_trans(st, before, members_entered(st, source_name, trait_name, members));
    }
}

/// Importing a requested name only adds.
proof fn lemma_name_imported(
    st: StateView,
    module: Seq<SymbolView>,
    span: Span,
    request: Spanned<Text>,
)
    ensures
        name_imported(st, module, span, request).warnings == st.warnings,
        grown_from(name_imported(st, module, span, request), st),
        same_context(st, name_imported(st, module, span, request)),
        distinct_names(st.project.symbols) ==> distinct_names(
            name_imported(st, module, span, request).project.symbols,
        ),
{
    let names = requested_names(module, request.1);
    let outcome = import_outcome(st.project.symbols, names, module);
    lemma_grown_refl(st);
    lemma_registered_all_extends(
        st.project.symbols,
        closure(
            module,
            known_names(module, names),
            Seq::empty(),
            Seq::empty(),
        ).resolved,
    );
    lemma_prefix_add(
        st.errors,
        outcome.errors.map_values(|e: ImportErrorView| import_error(e, span, request.1)),
    );
}

/// Importing the requested names only adds.
proof fn lemma_names_imported(
    st: StateView,
    module: Seq<SymbolView>,
    span: Span,
    requests: Seq<Spanned<Text>>,
)
    ensures
        names_imported(st, module, span, requests).warnings == st.warnings,
        grown_from(names_imported(st, module, span, requests), st),
        same_context(st, names_imported(st, module, span, requests)),
        distinct_names(st.project.symbols) ==> distinct_names(
            names_imported(st, module, span, requests).project.symbols,
        ),
    decreases requests.len(),
{
    if requests.len() == 0 {
        lemma_grown_refl(st);
    } else {
        let before = names_imported(st, module, span, requests.drop_last());
        lemma_names_imported(st, module, span, requests.drop_last());
        lemma_name_imported(before, module, span, requests.last());
        lemma_grown_trans(st, before, names_imported(st, module, span, requests));
    }
}

/// An import only adds.
proof fn lemma_import_step<R: Resolve>(
    st: StateView,
    span: Span,
    path: Seq<Spanned<Text>>,
    requests: Seq<Spanned<Text>>,
    resolver: &R,
    chain: Seq<Text>,
)
    requires
        within_reach(chain),
    ensures
        grown_from(import_step(st, span, path, requests, resolver, chain), st),
        same_context(st, import_step(st, span, path, requests, resolver, chain)),
        distinct_names(st.project.symbols) ==> distinct_names(
            import_step(st, span, path, requests, resolver, chain).project.symbols,
        ),
{
    match resolver.resolution(bare(path)) {
        Ok((text, module)) => {
            if chain.contains(module) {
                lemma_with_error(
                    st,
                    ErrorView::BadImport(span, cycle_message(module)),
                );
            } else {
                let nested = compilation(text, module, resolver, chain.push(module));
                let begun = with_reports(st, nested);
                lemma_grown_refl(st);
                lemma_prefix_add(st.errors, nested.errors);
                lemma_prefix_add(st.warnings, nested.warnings);
                lemma_names_imported(begun, nested.project.symbols, span, requests);
                lemma_grown_trans(
                    st,
                    begun,
                    names_imported(begun, nested.project.symbols, span, requests),
                );
            }
        },
        Err(e) => lemma_with_error(
            st,
            ErrorView::BadImport(span, message_of(e)),
        ),
    }
}

/// No statement takes away or changes what was gathered and reported
/// before it, and only a milestone changes the language, the time, the tags
/// or the milestones.
pub proof fn lemma_step<R: Resolve>(
    st: StateView,
    source_name: Text,
    span: Span,
    stmt: StmtView,
    resolver: &R,
    chain: Seq<Text>,
)
    requires
        within_reach(chain),
    ensures
        grown_from(step(st, source_name, span, stmt, resolver, chain), st),
        !(stmt is Milestone) ==> same_context(
            st,
            step(st, source_name, span, stmt, resolver, chain),
        ),
        distinct_names(st.project.symbols) ==> distinct_names(
            step(st, source_name, span, stmt, resolver, chain).project.symbols,
        ),
{
    lemma_grown_refl(st);
    match stmt {
        StmtView::Milestone { time, language } => {
            let after = milestone_step(st, span, time, language);
            lemma_prefix_push(st.errors, ErrorView::FirstTagNoLanguage(span));
            lemma_prefix_push(st.project.tags, after.project.tags.last());
            lemma_prefix_push(st.project.milestones, after.project.milestones.last());
            assert(st.project.tags.is_prefix_of(after.project.tags)) by {
                if after.project.tags != st.project.tags {
                    assert(after.project.tags =~= st.project.tags.push(after.project.tags.last()));
                }
            }
            assert(st.project.milestones.is_prefix_of(after.project.milestones)) by {
                if after.project.milestones != st.project.milestones {
                    assert(after.project.milestones =~= st.project.milestones.push(
                        after.project.milestones.last(),
                    ));
                }
            }
        },
        StmtView::SoundChange { source, target, environment, description } => {
            let after = sound_change_step(
                st,
                source_name,
                span,
                source,
                target,
                environment,
                description,
            );
            lemma_with_error(st, ErrorView::NoLanguage(span));
            if st.language is Some {
                lemma_prefix_push(st.project.sound_changes, after.project.sound_changes.last());
            }
        },
        StmtView::Language { id, parent, name } => {
            let after = language_step(st, source_name, span, id, parent, name);
            lemma_entered(
                st,
                language_symbol(source_name, span, id, parent, name),
                id.0,
            );
            lemma_prefix_push(st.project.languages, after.project.languages.last());
        },
        StmtView::Word { gloss, pronunciation, definitions } => {
            let after = word_step(st, source_name, span, gloss, pronunciation, definitions);
            lemma_with_error(st, ErrorView::NoLanguage(span));
            match st.language {
                Some(l) => {
                    let word = word_of(
                        gloss,
                        pronunciation,
                        definitions_of(definitions),
                        tag_of(l, st.time),
                    );
                    let symbol = SymbolView {
                        name: gloss.1,
                        loc: LocationView { source_name, span },
                        value: EntityView::Word(word),
                        dependencies: Seq::empty(),
                    };
                    lemma_entered(st, symbol, gloss.0);
                    lemma_prefix_push(st.project.words, word);
                },
                None => {},
            }
        },
        StmtView::Class { label, encodes, annotates, phonemes } => {
            let symbol = class_symbol(
                source_name,
                span,
                label,
                encodes,
                annotates,
                phonemes,
            );
            let begun = entered(st, symbol, label.0);
            lemma_entered(st, symbol, label.0);
            lemma_phonemes_entered(begun, source_name, label, phonemes);
            lemma_grown_trans(st, begun, phonemes_entered(begun, source_name, label, phonemes));
        },
        StmtView::Series { label, series } => {
            lemma_entered(
                st,
                SymbolView {
                    name: label.1,
                    loc: LocationView { source_name, span },
                    value: EntityView::Series { label, series },
                    dependencies: series_dependencies(series.1),
                },
                label.0,
            );
        },
        StmtView::Trait { label, members } => {
            let symbol = trait_symbol(source_name, span, label, members);
            let begun = entered(st, symbol, label.0);
            lemma_entered(st, symbol, label.0);
            lemma_members_entered(begun, source_name, label.1, members);
            lemma_grown_trans(st, begun, members_entered(begun, source_name, label.1, members));
        },
        StmtView::Import { path, absolute, names } => {
            lemma_import_step(st, span, path, names, resolver, chain);
        },
    }
}

/// What a compilation has gathered and reported after some of its
/// statements is still there, each thing in its place, after all of them.
pub proof fn law_compilation_only_adds<R: Resolve>(
    stmts: Seq<Spanned<StmtView>>,
    k: int,
    source_name: Text,
    resolver: &R,
    chain: Seq<Text>,
)
    requires
        within_reach(chain),
        0 <= k <= stmts.len(),
    ensures
        grown_from(
            run(stmts, source_name, resolver, chain),
            run(stmts.take(k), source_name, resolver, chain),
        ),
    decreases stmts.len() - k,
{
    let whole = run(stmts, source_name, resolver, chain);
    if k == stmts.len() {
        assert(stmts.take(k) =~= stmts);
        lemma_grown_refl(whole);
    } else {
        let here = run(stmts.take(k), source_name, resolver, chain);
        let next = run(stmts.take(k + 1), source_name, resolver, chain);
        assert(stmts.take(k + 1).drop_last() =~= stmts.take(k));
        lemma_step(here, source_name, stmts[k].0, stmts[k].1, resolver, chain);
        law_compilation_only_adds(stmts, k + 1, source_name, resolver, chain);
        lemma_grown_trans(here, next, whole);
    }
}

/// No two symbols of a compiled project share a name.
pub proof fn law_names_stay_distinct<R: Resolve>(
    stmts: Seq<Spanned<StmtView>>,
    source_name: Text,
    resolver: &R,
    chain: Seq<Text>,
)
    requires
        within_reach(chain),
    ensures
        distinct_names(compiled(stmts, source_name, resolver, chain).project.symbols),
    decreases stmts.len(),
{
    if stmts.len() > 0 {
        law_names_stay_distinct(stmts.drop_last(), source_name, resolver, chain);
        lemma_step(
            run(stmts.drop_last(), source_name, resolver, chain),
            source_name,
            stmts.last().0,
            stmts.last().1,
            resolver,
            chain,
        );
    }
}

/// The state after a statement is the step that the statement makes of the
/// state before it.
pub proof fn lemma_run_step<R: Resolve>(
    stmts: Seq<Spanned<StmtView>>,
    i: int,
    source_name: Text,
    resolver: &R,
    chain: Seq<Text>,
)
    requires
        0 <= i < stmts.len(),
    ensures
        run(stmts.take(i + 1), source_name, resolver, chain) == step(
            run(stmts.take(i), source_name, resolver, chain),
            source_name,
            stmts[i].0,
            stmts[i].1,
            resolver,
            chain,
        ),
{
    assert(stmts.take(i + 1).drop_last() =~= stmts.take(i));
}

/// A statement that sets the language: a milestone that names one.
pub open spec fn sets_language(stmt: StmtView) -> bool {
    stmt matches StmtView::Milestone { language: Some(_), .. }
}

/// Until a milestone names a language none is set and no tag is made; from
/// then on one is set and there are tags.
pub proof fn lemma_language<R: Resolve>(
    stmts: Seq<Spanned<StmtView>>,
    source_name: Text,
    resolver: &R,
    chain: Seq<Text>,
)
    requires
        within_reach(chain),
    ensures
        ({
            let st = run(stmts, source_name, resolver, chain);
            &&& st.language is None <==> st.project.tags.len() == 0
            &&& st.language is None <==> forall|j: int|
                0 <= j < stmts.len() ==> !sets_language((#[trigger] stmts[j]).1)
        }),
    decreases stmts.len(),
{
    if stmts.len() > 0 {
        let front = stmts.drop_last();
        let before = run(front, source_name, resolver, chain);
        lemma_language(front, source_name, resolver, chain);
        lemma_step(before, source_name, stmts.last().0, stmts.last().1, resolver, chain);
        let st = run(stmts, source_name, resolver, chain);
        if st.language is None {
            assert forall|j: int| 0 <= j < stmts.len() implies !sets_language(
                (#[trigger] stmts[j]).1,
            ) by {
                if j < front.len() {
                    assert(front[j] == stmts[j]);
                }
            }
        } else if before.language is None {
            assert(sets_language(stmts[stmts.len() - 1].1));
        }
    }
}

/// A word or a sound change that no milestone naming a language comes
/// before is reported as having no language, and the compilation is not in
/// order.
pub proof fn law_no_language<R: Resolve>(
    stmts: Seq<Spanned<StmtView>>,
    i: int,
    source_name: Text,
    resolver: &R,
    chain: Seq<Text>,
)
    requires
        within_reach(chain),
        0 <= i < stmts.len(),
        stmts[i].1 is Word || stmts[i].1 is SoundChange,
        forall|j: int| 0 <= j < i ==> !sets_language((#[trigger] stmts[j]).1),
    ensures
        compiled(stmts, source_name, resolver, chain).errors.contains(
            ErrorView::NoLanguage(stmts[i].0),
        ),
        !compiled(stmts, source_name, resolver, chain).ok,
{
    let before = run(stmts.take(i), source_name, resolver, chain);
    let after = run(stmts.take(i + 1), source_name, resolver, chain);
    lemma_language(stmts.take(i), source_name, resolver, chain);
    assert forall|j: int| 0 <= j < stmts.take(i).len() implies !sets_language(
        (#[trigger] stmts.take(i)[j]).1,
    ) by {
        assert(stmts.take(i)[j] == stmts[j]);
    }
    lemma_run_step(stmts, i, source_name, resolver, chain);
    lemma_with_error(before, ErrorView::NoLanguage(stmts[i].0));
    law_compilation_only_adds(stmts, i + 1, source_name, resolver, chain);
    lemma_prefix_holds(
        after.errors,
        run(stmts, source_name, resolver, chain).errors,
        ErrorView::NoLanguage(stmts[i].0),
    );
}

/// A milestone that names no language and that no milestone naming one
/// comes before is reported as a first tag without a language.
pub proof fn law_first_tag_without_language<R: Resolve>(
    stmts: Seq<Spanned<StmtView>>,
    i: int,
    source_name: Text,
    resolver: &R,
    chain: Seq<Text>,
)
    requires
        within_reach(chain),
        0 <= i < stmts.len(),
        stmts[i].1 is Milestone,
        forall|j: int| 0 <= j <= i ==> !sets_language((#[trigger] stmts[j]).1),
    ensures
        compiled(stmts, source_name, resolver, chain).errors.contains(
            ErrorView::FirstTagNoLanguage(stmts[i].0),
        ),
        !compiled(stmts, source_name, resolver, chain).ok,
{
    let before = run(stmts.take(i), source_name, resolver, chain);
    let after = run(stmts.take(i + 1), source_name, resolver, chain);
    lemma_language(stmts.take(i), source_name, resolver, chain);
    assert forall|j: int| 0 <= j < stmts.take(i).len() implies !sets_language(
        (#[trigger] stmts.take(i)[j]).1,
    ) by {
        assert(stmts.take(i)[j] == stmts[j]);
    }
    lemma_run_step(stmts, i, source_name, resolver, chain);
    let error = ErrorView::FirstTagNoLanguage(stmts[i].0);
    assert(after.errors[before.errors.len() as int] == error);
    law_compilation_only_adds(stmts, i + 1, source_name, resolver, chain);
    lemma_prefix_holds(after.errors, run(stmts, source_name, resolver, chain).errors, error);
}

/// A milestone that names no language, after a milestone that named one,
/// reports nothing.
pub proof fn law_later_milestone_needs_no_language<R: Resolve>(
    stmts: Seq<Spanned<StmtView>>,
    i: int,
    earlier: int,
    source_name: Text,
    resolver: &R,
    chain: Seq<Text>,
)
    requires
        within_reach(chain),
        0 <= earlier < i < stmts.len(),
        sets_language(stmts[earlier].1),
        stmts[i].1 is Milestone,
    ensures
        run(stmts.take(i + 1), source_name, resolver, chain).errors == run(
            stmts.take(i),
            source_name,
            resolver,
            chain,
        ).errors,
{
    lemma_language(stmts.take(i), source_name, resolver, chain);
    assert(sets_language(stmts.take(i)[earlier].1));
    lemma_run_step(stmts, i, source_name, resolver, chain);
    let before = run(stmts.take(i), source_name, resolver, chain);
    assert(before.project.tags.len() > 0);
}

/// Two symbols of one name, offered one after the other to a table that
/// does not hold the name: the first is registered, and the second is
/// reported as one collision, which carries the first. The table holds,
/// beside what it held, the first alone. What the symbols stand for plays no
/// part.
pub proof fn law_same_name_twice(
    st: StateView,
    first: SymbolView,
    at_first: Span,
    second: SymbolView,
    at_second: Span,
)
    requires
        lookup(st.project.symbols, first.name) is None,
        second.name == first.name,
    ensures
        entered(entered(st, first, at_first), second, at_second) == (StateView {
            project: ProjectView { symbols: st.project.symbols.push(first), ..st.project },
            errors: st.errors.push(ErrorView::NameCollision(at_second, first)),
            ..st
        }),
{
    law_second_registration_is_rejected(st.project.symbols, first, second);
}

/// A class whose label is taken and one of whose phonemes bears a name that
/// is taken too: both collisions are reported, each with the symbol that
/// holds the name.
pub proof fn law_class_and_phoneme_collisions(
    st: StateView,
    source_name: Text,
    span: Span,
    label: Spanned<Text>,
    encodes: Seq<Spanned<Text>>,
    annotates: Seq<Spanned<Text>>,
    phonemes: Seq<Spanned<PhonemeView>>,
    k: int,
)
    requires
        0 <= k < phonemes.len(),
        lookup(st.project.symbols, label.1) is Some,
        lookup(st.project.symbols, phonemes[k].1.label.1) is Some,
    ensures
        ({
            let errors = class_step(
                st,
                source_name,
                span,
                label,
                encodes,
                annotates,
                phonemes,
            ).errors;
            &&& errors.contains(
                ErrorView::NameCollision(label.0, lookup(st.project.symbols, label.1)->0),
            )
            &&& errors.contains(
                ErrorView::NameCollision(
                    phonemes[k].1.label.0,
                    lookup(st.project.symbols, phonemes[k].1.label.1)->0,
                ),
            )
        }),
{
    let symbol = class_symbol(
        source_name,
        span,
        label,
        encodes,
        annotates,
        phonemes,
    );
    let begun = entered(st, symbol, label.0);
    let done = phonemes_entered(begun, source_name, label, phonemes);
    let of_class = ErrorView::NameCollision(label.0, lookup(st.project.symbols, label.1)->0);
    let held = lookup(st.project.symbols, phonemes[k].1.label.1)->0;
    let of_phoneme = ErrorView::NameCollision(phonemes[k].1.label.0, held);
    lemma_with_error(st, of_class);
    lemma_phonemes_entered(begun, source_name, label, phonemes);
    lemma_prefix_holds(begun.errors, done.errors, of_class);

    let upto = phonemes_entered(begun, source_name, label, phonemes.take(k));
    let past = phonemes_entered(begun, source_name, label, phonemes.take(k + 1));
    assert(phonemes.take(k + 1).drop_last() =~= phonemes.take(k));
    lemma_phonemes_entered(begun, source_name, label, phonemes.take(k));
    lemma_lookup_extends(st.project.symbols, upto.project.symbols, phonemes[k].1.label.1);
    lemma_with_error(upto, of_phoneme);
    lemma_phonemes_continue(begun, source_name, label, phonemes, k + 1);
    lemma_prefix_holds(past.errors, done.errors, of_phoneme);
}

/// What the first phonemes of a class have come to is still there after all
/// of them.
proof fn lemma_phonemes_continue(
    st: StateView,
    source_name: Text,
    class: Spanned<Text>,
    phonemes: Seq<Spanned<PhonemeView>>,
    k: int,
)
    requires
        0 <= k <= phonemes.len(),
    ensures
        grown_from(
            phonemes_entered(st, source_name, class, phonemes),
            phonemes_entered(st, source_name, class, phonemes.take(k)),
        ),
    decreases phonemes.len() - k,
{
    let whole = phonemes_entered(st, source_name, class, phonemes);
    if k == phonemes.len() {
        assert(phonemes.take(k) =~= phonemes);
        lemma_grown_refl(whole);
    } else {
        let here = phonemes_entered(st, source_name, class, phonemes.take(k));
        let next = phonemes_entered(st, source_name, class, phonemes.take(k + 1));
        assert(phonemes.take(k + 1).drop_last() =~= phonemes.take(k));
        lemma_entered(
            here,
            phoneme_symbol(source_name, class, phonemes[k]),
            phonemes[k].1.label.0,
        );
        lemma_phonemes_continue(st, source_name, class, phonemes, k + 1);
        lemma_grown_trans(here, next, whole);
    }
}

/// What the first requests of an import have come to is still there after
/// all of them.
proof fn lemma_names_continue(
    st: StateView,
    module: Seq<SymbolView>,
    span: Span,
    requests: Seq<Spanned<Text>>,
    k: int,
)
    requires
        0 <= k <= requests.len(),
    ensures
        grown_from(
            names_imported(st, module, span, requests),
            names_imported(st, module, span, requests.take(k)),
        ),
    decreases requests.len() - k,
{
    let whole = names_imported(st, module, span, requests);
    if k == requests.len() {
        assert(requests.take(k) =~= requests);
        lemma_grown_refl(whole);
    } else {
        let here = names_imported(st, module, span, requests.take(k));
        let next = names_imported(st, module, span, requests.take(k + 1));
        assert(requests.take(k + 1).drop_last() =~= requests.take(k));
        lemma_name_imported(here, module, span, requests[k]);
        lemma_names_continue(st, module, span, requests, k + 1);
        lemma_grown_trans(here, next, whole);
    }
}

/// Whether an import of `path` is followed, in a compilation that was
/// reached through the modules of `chain`: the resolver has an answer, and
/// the module is not among `chain`. The chain is one within reach.
pub open spec fn is_followed<R: Resolve>(
    path: Seq<Spanned<Text>>,
    resolver: &R,
    chain: Seq<Text>,
) -> bool {
    match resolver.resolution(bare(path)) {
        Ok((text, module)) => !chain.contains(module) && within_reach(chain),
        Err(_) => false,
    }
}

/// What compiling the module at `path` comes to.
pub open spec fn module_at<R: Resolve>(
    path: Seq<Spanned<Text>>,
    resolver: &R,
    chain: Seq<Text>,
) -> ResultView {
    match resolver.resolution(bare(path)) {
        Ok((text, module)) => compilation(text, module, resolver, chain.push(module)),
        Err(_) => clean_result(),
    }
}

/// A request asks for a name: it names it, or it is the wildcard.
pub open spec fn asks_for(request: Text, name: Text) -> bool {
    request == name || request == wildcard()
}

/// A name that a request asks for and that the module defines is among the
/// requested names.
proof fn lemma_asked_name(module: Seq<SymbolView>, request: Text, name: Text) -> (at: int)
    requires
        asks_for(request, name),
        lookup(module, name) is Some,
    ensures
        0 <= at < requested_names(module, request).len(),
        requested_names(module, request)[at] == name,
{
    if request == wildcard() {
        lemma_lookup_found(module, name);
        let i = choose|i: int| 0 <= i < module.len() && (#[trigger] module[i]).name == name;
        assert(names_of(module)[i] == name);
        i
    } else {
        0
    }
}

/// An import that asks for a name that the module defines, by the name or
/// by the wildcard, where the module does not define a name that the symbol
/// depends on, reports that dependency as not found, whatever else the
/// import statement asks for and whatever the table holds.
pub proof fn law_import_reports_missing_dependency<R: Resolve>(
    st: StateView,
    span: Span,
    path: Seq<Spanned<Text>>,
    requests: Seq<Spanned<Text>>,
    resolver: &R,
    chain: Seq<Text>,
    k: int,
    name: Text,
    j: int,
)
    requires
        is_followed(path, resolver, chain),
        0 <= k < requests.len(),
        asks_for(requests[k].1, name),
        lookup(module_at(path, resolver, chain).project.symbols, name) is Some,
        0 <= j < (lookup(
            module_at(path, resolver, chain).project.symbols,
            name,
        )->0).dependencies.len(),
        lookup(
            module_at(path, resolver, chain).project.symbols,
            (lookup(module_at(path, resolver, chain).project.symbols, name)->0).dependencies[j],
        ) is None,
    ensures
        import_step(st, span, path, requests, resolver, chain).errors.contains(
            ErrorView::ImportDependencyNotFound(
                (lookup(module_at(path, resolver, chain).project.symbols, name)->0).dependencies[j],
            ),
        ),
{
    let nested = module_at(path, resolver, chain);
    let module = nested.project.symbols;
    let dep = (lookup(module, name)->0).dependencies[j];
    let begun = with_reports(st, nested);
    let here = names_imported(begun, module, span, requests.take(k));
    let next = names_imported(begun, module, span, requests.take(k + 1));
    let whole = names_imported(begun, module, span, requests);
    assert(requests.take(k + 1).drop_last() =~= requests.take(k));
    assert(requests.take(k + 1).last() == requests[k]);
    let names = requested_names(module, requests[k].1);
    let asked = lemma_asked_name(module, requests[k].1, name);
    let outcome = import_outcome(here.project.symbols, names, module);
    law_missing_dependency_is_reported(here.project.symbols, names, module, asked, j);
    let at = choose|at: int|
        0 <= at < outcome.errors.len() && outcome.errors[at] == ImportErrorView::FailedDependency(
            dep,
        );
    let worded = outcome.errors.map_values(
        |e: ImportErrorView| import_error(e, span, requests[k].1),
    );
    assert(worded[at] == ErrorView::ImportDependencyNotFound(dep));
    assert(next.errors[here.errors.len() + at] == ErrorView::ImportDependencyNotFound(dep));
    lemma_names_continue(begun, module, span, requests, k + 1);
    lemma_prefix_holds(next.errors, whole.errors, ErrorView::ImportDependencyNotFound(dep));
}

/// An import that asks for a name that the module defines, by the name or
/// by the wildcard, while the table holds the name already, reports a
/// collision at the span of the import statement, with the symbol that the
/// table holds, and leaves that symbol under the name.
pub proof fn law_import_reports_collision<R: Resolve>(
    st: StateView,
    span: Span,
    path: Seq<Spanned<Text>>,
    requests: Seq<Spanned<Text>>,
    resolver: &R,
    chain: Seq<Text>,
    k: int,
    name: Text,
)
    requires
        is_followed(path, resolver, chain),
        0 <= k < requests.len(),
        asks_for(requests[k].1, name),
        lookup(module_at(path, resolver, chain).project.symbols, name) is Some,
        lookup(st.project.symbols, name) is Some,
    ensures
        import_step(st, span, path, requests, resolver, chain).errors.contains(
            ErrorView::NameCollision(span, lookup(st.project.symbols, name)->0),
        ),
        lookup(import_step(st, span, path, requests, resolver, chain).project.symbols, name)
            == lookup(st.project.symbols, name),
{
    let nested = module_at(path, resolver, chain);
    let module = nested.project.symbols;
    let held = lookup(st.project.symbols, name)->0;
    let begun = with_reports(st, nested);
    let here = names_imported(begun, module, span, requests.take(k));
    let next = names_imported(begun, module, span, requests.take(k + 1));
    let whole = names_imported(begun, module, span, requests);
    assert(requests.take(k + 1).drop_last() =~= requests.take(k));
    assert(requests.take(k + 1).last() == requests[k]);
    lemma_names_imported(begun, module, span, requests.take(k));
    lemma_lookup_extends(st.project.symbols, here.project.symbols, name);
    let names = requested_names(module, requests[k].1);
    let asked = lemma_asked_name(module, requests[k].1, name);
    let outcome = import_outcome(here.project.symbols, names, module);
    law_import_does_not_overwrite(here.project.symbols, names, module, asked);
    let at = choose|at: int|
        0 <= at < outcome.errors.len() && outcome.errors[at] == ImportErrorView::NameCollision(
            held,
        );
    let worded = outcome.errors.map_values(
        |e: ImportErrorView| import_error(e, span, requests[k].1),
    );
    assert(worded[at] == ErrorView::NameCollision(span, held));
    assert(next.errors[here.errors.len() + at] == ErrorView::NameCollision(span, held));
    lemma_names_continue(begun, module, span, requests, k + 1);
    lemma_prefix_holds(next.errors, whole.errors, ErrorView::NameCollision(span, held));
    lemma_names_imported(begun, module, span, requests);
    lemma_lookup_extends(st.project.symbols, whole.project.symbols, name);
}

/// A sound change that is met while no language is set is reported as
/// having no language, at its span, and nothing else changes.
pub proof fn law_sound_change_needs_language(
    st: StateView,
    source_name: Text,
    span: Span,
    source: Spanned<ast::Source>,
    target: Spanned<ast::Target>,
    environment: Option<Spanned<ast::Environment>>,
    description: Option<Spanned<Text>>,
)
    requires
        st.language is None,
    ensures
        sound_change_step(st, source_name, span, source, target, environment, description)
            == with_error(st, ErrorView::NoLanguage(span)),
{
}

/// A word that is met while no language is set is reported as having no
/// language, at its span, and nothing else changes: no symbol is registered
/// and no word recorded.
pub proof fn law_word_needs_language(
    st: StateView,
    source_name: Text,
    span: Span,
    gloss: Spanned<Text>,
    pronunciation: Spanned<Seq<Text>>,
    senses: Seq<SenseView>,
)
    requires
        st.language is None,
    ensures
        word_step(st, source_name, span, gloss, pronunciation, senses) == with_error(
            st,
            ErrorView::NoLanguage(span),
        ),
{
}

/// A milestone that gives a time and no language, while no language is set
/// and no tag made: it is reported as a first tag without a language; the
/// time becomes current and its instant joins the milestones; no tag is made
/// and no language set.
pub proof fn law_first_milestone_with_time_only(
    st: StateView,
    span: Span,
    time: Spanned<ast::Time>,
)
    requires
        st.language is None,
        st.project.tags.len() == 0,
    ensures
        milestone_step(st, span, Some(time), None) == (StateView {
            project: ProjectView {
                milestones: st.project.milestones.push(instant_of(time.1)),
                ..st.project
            },
            time,
            errors: st.errors.push(ErrorView::FirstTagNoLanguage(span)),
            ..st
        }),
{
}

/// A milestone that gives a time and no language, while a language is set
/// and tags were made: nothing is reported; the time becomes current, its
/// instant joins the milestones, and a tag of the language that is set and
/// the new time joins the tags.
pub proof fn law_later_milestone_with_time_only(
    st: StateView,
    span: Span,
    time: Spanned<ast::Time>,
    language: Spanned<Text>,
)
    requires
        st.language == Some(language),
        st.project.tags.len() > 0,
    ensures
        milestone_step(st, span, Some(time), None) == (StateView {
            project: ProjectView {
                milestones: st.project.milestones.push(instant_of(time.1)),
                tags: st.project.tags.push(tag_of(language, time)),
                ..st.project
            },
            time,
            ..st
        }),
{
}

/// The declaration of a language whose identifier is taken, by a symbol of
/// whatever kind: one collision is reported, at the span of the identifier,
/// with the symbol that holds the name; the table and the languages stay as
/// they are.
pub proof fn law_taken_language_name(
    st: StateView,
    source_name: Text,
    span: Span,
    id: Spanned<Text>,
    parent: Option<Spanned<Text>>,
    name: Option<Spanned<Text>>,
)
    requires
        lookup(st.project.symbols, id.1) is Some,
    ensures
        language_step(st, source_name, span, id, parent, name) == with_error(
            st,
            ErrorView::NameCollision(id.0, lookup(st.project.symbols, id.1)->0),
        ),
{
}

/// The collisions of the phonemes of a class body with a table, in the
/// order of the body: for each phoneme whose name the table holds, a
/// collision at the span of its label with the symbol that holds the name.
pub open spec fn phoneme_collisions(
    symbols: Seq<SymbolView>,
    phonemes: Seq<Spanned<PhonemeView>>,
) -> Seq<ErrorView>
    decreases phonemes.len(),
{
    if phonemes.len() == 0 {
        Seq::empty()
    } else {
        let before = phoneme_collisions(symbols, phonemes.drop_last());
        match lookup(symbols, phonemes.last().1.label.1) {
            Some(held) => before.push(ErrorView::NameCollision(phonemes.last().1.label.0, held)),
            None => before,
        }
    }
}

/// The phonemes of a class body bear names that differ from one another.
pub open spec fn distinct_labels(phonemes: Seq<Spanned<PhonemeView>>) -> bool {
    forall|i: int, j: int|
        0 <= i < j < phonemes.len() ==> (#[trigger] phonemes[i]).1.label.1 != (
        #[trigger] phonemes[j]).1.label.1
}

/// Phonemes of distinct names, offered to the table one after the other,
/// add exactly their collisions with the table as it was, and leave under
/// every other name what was there.
proof fn lemma_phonemes_collide_with_the_table(
    st: StateView,
    source_name: Text,
    class: Spanned<Text>,
    phonemes: Seq<Spanned<PhonemeView>>,
)
    requires
        distinct_labels(phonemes),
    ensures
        phonemes_entered(st, source_name, class, phonemes).errors == st.errors
            + phoneme_collisions(st.project.symbols, phonemes),
        forall|name: Text|
            (forall|i: int| 0 <= i < phonemes.len() ==> (#[trigger] phonemes[i]).1.label.1 != name)
                ==> lookup(
                phonemes_entered(st, source_name, class, phonemes).project.symbols,
                name,
            ) == lookup(st.project.symbols, name),
    decreases phonemes.len(),
{
    if phonemes.len() == 0 {
        assert(st.errors + phoneme_collisions(st.project.symbols, phonemes) =~= st.errors);
    } else {
        let front = phonemes.drop_last();
        let last = phonemes.last();
        let before = phonemes_entered(st, source_name, class, front);
        let after = phonemes_entered(st, source_name, class, phonemes);
        assert(distinct_labels(front)) by {
            assert forall|i: int, j: int| 0 <= i < j < front.len() implies (#[trigger] front[i]).1.label.1
                != (#[trigger] front[j]).1.label.1 by {
                assert(front[i] == phonemes[i] && front[j] == phonemes[j]);
            }
        }
        lemma_phonemes_collide_with_the_table(st, source_name, class, front);
        assert forall|i: int| 0 <= i < front.len() implies (#[trigger] front[i]).1.label.1
            != last.1.label.1 by {
            assert(front[i] == phonemes[i]);
            assert(last == phonemes[phonemes.len() - 1]);
        }
        assert(lookup(before.project.symbols, last.1.label.1) == lookup(
            st.project.symbols,
            last.1.label.1,
        ));
        assert(after.errors =~= st.errors + phoneme_collisions(st.project.symbols, phonemes));
        assert forall|name: Text|
            (forall|i: int|
                0 <= i < phonemes.len() ==> (#[trigger] phonemes[i]).1.label.1 != name) implies lookup(
            after.project.symbols,
            name,
        ) == lookup(st.project.symbols, name) by {
            assert forall|i: int| 0 <= i < front.len() implies (#[trigger] front[i]).1.label.1
                != name by {
                assert(front[i] == phonemes[i]);
            }
            assert(phonemes[phonemes.len() - 1].1.label.1 != name);
            if lookup(before.project.symbols, last.1.label.1) is None {
                let symbol = phoneme_symbol(source_name, class, last);
                assert(before.project.symbols.push(symbol).drop_last() =~= before.project.symbols);
            }
        }
    }
}

/// A class whose label is taken, with phonemes of distinct names: the
/// collision of the label is reported first, at the span of the label, then
/// one collision for each phoneme whose name is taken, in the order of the
/// body, each at the span of the phoneme's label and with the symbol that
/// holds the name. Nothing else is reported.
pub proof fn law_class_collisions_in_order(
    st: StateView,
    source_name: Text,
    span: Span,
    label: Spanned<Text>,
    encodes: Seq<Spanned<Text>>,
    annotates: Seq<Spanned<Text>>,
    phonemes: Seq<Spanned<PhonemeView>>,
)
    requires
        lookup(st.project.symbols, label.1) is Some,
        distinct_labels(phonemes),
    ensures
        class_step(st, source_name, span, label, encodes, annotates, phonemes).errors
            == st.errors.push(
            ErrorView::NameCollision(label.0, lookup(st.project.symbols, label.1)->0),
        ) + phoneme_collisions(st.project.symbols, phonemes),
{
    let symbol = class_symbol(source_name, span, label, encodes, annotates, phonemes);
    let begun = entered(st, symbol, label.0);
    lemma_phonemes_collide_with_the_table(begun, source_name, label, phonemes);
}

/// An import that is followed comes to this: what the imported module
/// reported is taken over as it is, behind what was reported before, and the
/// requested names are then imported from its project, in their order.
pub proof fn law_followed_import<R: Resolve>(
    st: StateView,
    span: Span,
    path: Seq<Spanned<Text>>,
    requests: Seq<Spanned<Text>>,
    resolver: &R,
    chain: Seq<Text>,
)
    requires
        is_followed(path, resolver, chain),
    ensures
        import_step(st, span, path, requests, resolver, chain) == names_imported(
            with_reports(st, module_at(path, resolver, chain)),
            module_at(path, resolver, chain).project.symbols,
            span,
            requests,
        ),
        (st.errors + module_at(path, resolver, chain).errors).is_prefix_of(
            import_step(st, span, path, requests, resolver, chain).errors,
        ),
        (st.warnings + module_at(path, resolver, chain).warnings) == import_step(
            st,
            span,
            path,
            requests,
            resolver,
            chain,
        ).warnings,
{
    let nested = module_at(path, resolver, chain);
    lemma_names_imported(with_reports(st, nested), nested.project.symbols, span, requests);
}

/// Under a name that the table did not hold, an import of some names
/// leaves nothing or the symbol of the module.
proof fn lemma_names_imported_lookup(
    st: StateView,
    module: Seq<SymbolView>,
    span: Span,
    requests: Seq<Spanned<Text>>,
    name: Text,
)
    ensures
        ({
            let found = lookup(names_imported(st, module, span, requests).project.symbols, name);
            if lookup(st.project.symbols, name) is Some {
                found == lookup(st.project.symbols, name)
            } else {
                found is None || found == lookup(module, name)
            }
        }),
    decreases requests.len(),
{
    if requests.len() > 0 {
        let before = names_imported(st, module, span, requests.drop_last());
        lemma_names_imported_lookup(st, module, span, requests.drop_last(), name);
        let names = requested_names(module, requests.last().1);
        law_import_brings_the_closure(before.project.symbols, names, module, name);
    }
}

/// An import that asks for a name that the module defines, by the name or
/// by the wildcard, while the table does not hold the name, brings the
/// symbol of the module under that name, whatever is reported of what the
/// symbol depends on.
pub proof fn law_import_brings_requested_name<R: Resolve>(
    st: StateView,
    span: Span,
    path: Seq<Spanned<Text>>,
    requests: Seq<Spanned<Text>>,
    resolver: &R,
    chain: Seq<Text>,
    k: int,
    name: Text,
)
    requires
        is_followed(path, resolver, chain),
        0 <= k < requests.len(),
        asks_for(requests[k].1, name),
        lookup(module_at(path, resolver, chain).project.symbols, name) is Some,
        lookup(st.project.symbols, name) is None,
    ensures
        lookup(import_step(st, span, path, requests, resolver, chain).project.symbols, name)
            == lookup(module_at(path, resolver, chain).project.symbols, name),
{
    let nested = module_at(path, resolver, chain);
    let module = nested.project.symbols;
    let begun = with_reports(st, nested);
    let here = names_imported(begun, module, span, requests.take(k));
    let next = names_imported(begun, module, span, requests.take(k + 1));
    let whole = names_imported(begun, module, span, requests);
    assert(requests.take(k + 1).drop_last() =~= requests.take(k));
    assert(requests.take(k + 1).last() == requests[k]);
    lemma_names_imported_lookup(begun, module, span, requests.take(k), name);
    let names = requested_names(module, requests[k].1);
    let asked = lemma_asked_name(module, requests[k].1, name);
    law_requested_name_is_brought(here.project.symbols, names, module, asked);
    lemma_names_continue(begun, module, span, requests, k + 1);
    lemma_lookup_extends(next.project.symbols, whole.project.symbols, name);
}

} // verus!
