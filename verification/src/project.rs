//! The project that a compilation builds: a table of named symbols, kept in
//! the order in which they were registered, and the lists of languages,
//! words, sound changes, milestones and tags.

use crate::language::{Language, LanguageView};
use crate::syntax::{
    copy_members, copy_names, copy_opt_text, copy_series, copy_span, copy_text, copy_texts,
    members_view, names_view, opt_text_view, series_view, strs_view, text_view, texts_view,
    SeriesView, Span, Spanned, Text, TraitMemberView,
};
use crate::tag::{Tag, TagView};
use crate::word::{Word, WordView};
use chronlang_parser::ast;
use vstd::prelude::*;

verus! {

/// Where a symbol was defined: the name of the source and the span in it.
#[derive(Debug, PartialEq)]
pub struct Location {
    pub source_name: String,
    pub span: Span,
}

/// The view of a [`Location`].
pub struct LocationView {
    pub source_name: Text,
    pub span: Span,
}

impl View for Location {
    type V = LocationView;

    open spec fn view(&self) -> LocationView {
        LocationView { source_name: self.source_name@, span: self.span }
    }
}

impl Clone for Location {
    fn clone(&self) -> (r: Self)
        ensures
            r@ == self@,
    {
        Self { source_name: self.source_name.clone(), span: copy_span(&self.span) }
    }
}

/// What a symbol stands for.
#[derive(Debug, PartialEq)]
pub enum Entity {
    Language(Language),
    Word(Word),
    Class {
        label: Spanned<String>,
        encodes: Vec<Spanned<String>>,
        annotates: Vec<Spanned<String>>,
        phonemes: Vec<String>,
    },
    Phoneme { class: Spanned<String>, label: Spanned<String>, traits: Vec<Spanned<String>> },
    Series { label: Spanned<String>, series: Spanned<ast::Series> },
    Trait { label: Spanned<String>, members: Vec<ast::TraitMember> },
    TraitMember {
        label: Spanned<String>,
        aliases: Vec<Spanned<String>>,
        default: bool,
        notation: Option<Spanned<String>>,
    },
}

/// The view of an [`Entity`].
pub enum EntityView {
    Language(LanguageView),
    Word(WordView),
    Class {
        label: Spanned<Text>,
        encodes: Seq<Spanned<Text>>,
        annotates: Seq<Spanned<Text>>,
        phonemes: Seq<Text>,
    },
    Phoneme { class: Spanned<Text>, label: Spanned<Text>, traits: Seq<Spanned<Text>> },
    Series { label: Spanned<Text>, series: Spanned<SeriesView> },
    Trait { label: Spanned<Text>, members: Seq<TraitMemberView> },
    TraitMember {
        label: Spanned<Text>,
        aliases: Seq<Spanned<Text>>,
        default: bool,
        notation: Option<Spanned<Text>>,
    },
}

impl View for Entity {
    type V = EntityView;

    open spec fn view(&self) -> EntityView {
        match *self {
            Entity::Language(l) => EntityView::Language(l@),
            Entity::Word(w) => EntityView::Word(w@),
            Entity::Class { label, encodes, annotates, phonemes } => EntityView::Class {
                label: text_view(label),
                encodes: texts_view(encodes@),
                annotates: texts_view(annotates@),
                phonemes: names_view(phonemes@),
            },
            Entity::Phoneme { class, label, traits } => EntityView::Phoneme {
                class: text_view(class),
                label: text_view(label),
                traits: texts_view(traits@),
            },
            Entity::Series { label, series } => EntityView::Series {
                label: text_view(label),
                series: (series.0, series_view(series.1)),
            },
            Entity::Trait { label, members } => EntityView::Trait {
                label: text_view(label),
                members: members_view(members@),
            },
            Entity::TraitMember { label, aliases, default, notation } => EntityView::TraitMember {
                label: text_view(label),
                aliases: texts_view(aliases@),
                default,
                notation: opt_text_view(notation),
            },
        }
    }
}

impl Clone for Entity {
    fn clone(&self) -> (r: Self)
        ensures
            r@ == self@,
    {
        match self {
            Entity::Language(l) => Entity::Language(l.clone()),
            Entity::Word(w) => Entity::Word(w.clone()),
            Entity::Class { label, encodes, annotates, phonemes } => Entity::Class {
                label: copy_text(label),
                encodes: copy_texts(encodes),
                annotates: copy_texts(annotates),
                phonemes: copy_names(phonemes),
            },
            Entity::Phoneme { class, label, traits } => Entity::Phoneme {
                class: copy_text(class),
                label: copy_text(label),
                traits: copy_texts(traits),
            },
            Entity::Series { label, series } => Entity::Series {
                label: copy_text(label),
                series: (copy_span(&series.0), copy_series(&series.1)),
            },
            Entity::Trait { label, members } => Entity::Trait {
                label: copy_text(label),
                members: copy_members(members),
            },
            Entity::TraitMember { label, aliases, default, notation } => Entity::TraitMember {
                label: copy_text(label),
                aliases: copy_texts(aliases),
                default: *default,
                notation: copy_opt_text(notation),
            },
        }
    }
}

/// An entry of the symbol table: a name, the place of its definition, what
/// it stands for, and the names that its definition refers to.
#[derive(Debug, PartialEq)]
pub struct Symbol {
    pub name: String,
    pub loc: Location,
    pub value: Entity,
    pub dependencies: Vec<String>,
}

/// The view of a [`Symbol`].
pub struct SymbolView {
    pub name: Text,
    pub loc: LocationView,
    pub value: EntityView,
    pub dependencies: Seq<Text>,
}

impl View for Symbol {
    type V = SymbolView;

    open spec fn view(&self) -> SymbolView {
        SymbolView {
            name: self.name@,
            loc: self.loc@,
            value: self.value@,
            dependencies: names_view(self.dependencies@),
        }
    }
}

impl Clone for Symbol {
    fn clone(&self) -> (r: Self)
        ensures
            r@ == self@,
    {
        Self {
            name: self.name.clone(),
            loc: self.loc.clone(),
            value: self.value.clone(),
            dependencies: copy_names(&self.dependencies),
        }
    }
}

/// A sequence of symbols, each seen as its view.
pub open spec fn symbols_view(v: Seq<Symbol>) -> Seq<SymbolView> {
    v.map_values(|s: Symbol| s@)
}

/// Why an import did not go through.
#[derive(Debug, PartialEq)]
pub enum ImportError {
    /// A requested name is not defined in the source project.
    NoSuchSymbol(String),
    /// A name that an imported symbol depends on is not defined in the
    /// source project.
    FailedDependency(String),
    /// The destination already holds a symbol of that name: this one.
    NameCollision(Symbol),
}

/// The view of an [`ImportError`].
pub enum ImportErrorView {
    NoSuchSymbol(Text),
    FailedDependency(Text),
    NameCollision(SymbolView),
}

impl View for ImportError {
    type V = ImportErrorView;

    open spec fn view(&self) -> ImportErrorView {
        match *self {
            ImportError::NoSuchSymbol(name) => ImportErrorView::NoSuchSymbol(name@),
            ImportError::FailedDependency(name) => ImportErrorView::FailedDependency(name@),
            ImportError::NameCollision(symbol) => ImportErrorView::NameCollision(symbol@),
        }
    }
}

/// A sound change with the language and time it applies at. Its patterns
/// are kept as the parser produced them.
#[derive(Debug, PartialEq)]
pub struct SoundChange {
    pub source_name: String,
    pub source: Spanned<ast::Source>,
    pub target: Spanned<ast::Target>,
    pub environment: Option<Spanned<ast::Environment>>,
    pub description: Option<Spanned<String>>,
    pub tag: Tag,
}

/// The view of a [`SoundChange`].
pub struct SoundChangeView {
    pub source_name: Text,
    pub source: Spanned<ast::Source>,
    pub target: Spanned<ast::Target>,
    pub environment: Option<Spanned<ast::Environment>>,
    pub description: Option<Spanned<Text>>,
    pub tag: TagView,
}

impl View for SoundChange {
    type V = SoundChangeView;

    open spec fn view(&self) -> SoundChangeView {
        SoundChangeView {
            source_name: self.source_name@,
            source: self.source,
            target: self.target,
            environment: self.environment,
            description: opt_text_view(self.description),
            tag: self.tag@,
        }
    }
}

/// Everything that a compilation has gathered.
#[derive(Debug, PartialEq)]
pub struct Project {
    pub milestones: Vec<i64>,
    pub symbols: Vec<Symbol>,
    pub languages: Vec<Language>,
    pub words: Vec<Word>,
    pub sound_changes: Vec<SoundChange>,
    pub tags: Vec<Tag>,
}

/// The view of a [`Project`].
pub struct ProjectView {
    pub milestones: Seq<i64>,
    pub symbols: Seq<SymbolView>,
    pub languages: Seq<LanguageView>,
    pub words: Seq<WordView>,
    pub sound_changes: Seq<SoundChangeView>,
    pub tags: Seq<TagView>,
}

impl View for Project {
    type V = ProjectView;

    open spec fn view(&self) -> ProjectView {
        ProjectView {
            milestones: self.milestones@,
            symbols: symbols_view(self.symbols@),
            languages: self.languages@.map_values(|l: Language| l@),
            words: self.words@.map_values(|w: Word| w@),
            sound_changes: self.sound_changes@.map_values(|c: SoundChange| c@),
            tags: self.tags@.map_values(|t: Tag| t@),
        }
    }
}

impl ProjectView {
    /// The table is in order: no two symbols share a name.
    pub open spec fn wf(self) -> bool {
        distinct_names(self.symbols)
    }
}

/// The project that holds nothing.
pub open spec fn empty_project() -> ProjectView {
    ProjectView {
        milestones: Seq::empty(),
        symbols: Seq::empty(),
        languages: Seq::empty(),
        words: Seq::empty(),
        sound_changes: Seq::empty(),
        tags: Seq::empty(),
    }
}

/// The first symbol called `name`, if there is one.
pub open spec fn lookup(symbols: Seq<SymbolView>, name: Text) -> Option<SymbolView>
    decreases symbols.len(),
{
    if symbols.len() == 0 {
        None
    } else {
        match lookup(symbols.drop_last(), name) {
            Some(s) => Some(s),
            None => if symbols.last().name == name {
                Some(symbols.last())
            } else {
                None
            },
        }
    }
}

/// No two symbols share a name.
pub open spec fn distinct_names(symbols: Seq<SymbolView>) -> bool {
    forall|i: int, j: int|
        0 <= i < j < symbols.len() ==> (#[trigger] symbols[i]).name != (#[trigger] symbols[j]).name
}

/// The table as a mapping from names to symbols.
pub open spec fn table(symbols: Seq<SymbolView>) -> Map<Text, SymbolView> {
    Map::new(|name: Text| lookup(symbols, name) is Some, |name: Text| lookup(symbols, name)->0)
}

/// The table after registering `symbol`: unchanged where the name is taken,
/// else with the symbol at its end.
pub open spec fn registered(symbols: Seq<SymbolView>, symbol: SymbolView) -> Seq<SymbolView> {
    if lookup(symbols, symbol.name) is Some {
        symbols
    } else {
        symbols.push(symbol)
    }
}

/// The table after registering each of `new` in turn.
pub open spec fn registered_all(symbols: Seq<SymbolView>, new: Seq<SymbolView>) -> Seq<SymbolView>
    decreases new.len(),
{
    if new.len() == 0 {
        symbols
    } else {
        registered(registered_all(symbols, new.drop_last()), new.last())
    }
}

/// The symbols that stood in the way while each of `new` was registered in
/// turn: for each rejected one, the symbol that held its name.
pub open spec fn clashes(symbols: Seq<SymbolView>, new: Seq<SymbolView>) -> Seq<SymbolView>
    decreases new.len(),
{
    if new.len() == 0 {
        Seq::empty()
    } else {
        let before = clashes(symbols, new.drop_last());
        match lookup(registered_all(symbols, new.drop_last()), new.last().name) {
            Some(held) => before.push(held),
            None => before,
        }
    }
}

/// Looking a name up in a prefix that holds it gives what the whole table
/// gives.
pub proof fn lemma_lookup_prefix(symbols: Seq<SymbolView>, k: int, name: Text)
    requires
        0 <= k <= symbols.len(),
        lookup(symbols.take(k), name) is Some,
    ensures
        lookup(symbols, name) == lookup(symbols.take(k), name),
    decreases symbols.len() - k,
{
    if k < symbols.len() {
        assert(symbols.take(k + 1).drop_last() =~= symbols.take(k));
        lemma_lookup_prefix(symbols, k + 1, name);
    } else {
        assert(symbols.take(k) =~= symbols);
    }
}

/// A name is found exactly when some symbol bears it, and what is found
/// bears it.
pub proof fn lemma_lookup_found(symbols: Seq<SymbolView>, name: Text)
    ensures
        lookup(symbols, name) is Some <==> exists|i: int|
            0 <= i < symbols.len() && (#[trigger] symbols[i]).name == name,
        lookup(symbols, name) matches Some(s) ==> s.name == name && symbols.contains(s),
    decreases symbols.len(),
{
    if symbols.len() > 0 {
        let front = symbols.drop_last();
        lemma_lookup_found(front, name);
        if lookup(front, name) is Some {
            let i = choose|i: int| 0 <= i < front.len() && (#[trigger] front[i]).name == name;
        } else if symbols.last().name == name {
            assert(symbols[symbols.len() - 1].name == name);
        } else {
            assert forall|i: int| 0 <= i < symbols.len() implies (#[trigger] symbols[i]).name
                != name by {
                if i < front.len() {
                    assert(front[i].name != name);
                }
            }
        }
    }
}

/// The names that the symbols bear.
pub open spec fn name_set(symbols: Seq<SymbolView>) -> Set<Text> {
    symbols.map_values(|s: SymbolView| s.name).to_set()
}

/// How many names of `source` no symbol of `done` bears.
pub open spec fn unresolved(source: Seq<SymbolView>, done: Seq<SymbolView>) -> nat {
    name_set(source).difference(name_set(done)).len()
}

/// A name is in the name set exactly when it is found.
pub proof fn lemma_name_set(symbols: Seq<SymbolView>, name: Text)
    ensures
        name_set(symbols).contains(name) <==> lookup(symbols, name) is Some,
        name_set(symbols).finite(),
{
    let names = symbols.map_values(|s: SymbolView| s.name);
    lemma_lookup_found(symbols, name);
    vstd::seq_lib::seq_to_set_is_finite(names);
    if names.contains(name) {
        let i = choose|i: int| 0 <= i < names.len() && names[i] == name;
    }
    if lookup(symbols, name) is Some {
        let i = choose|i: int| 0 <= i < symbols.len() && (#[trigger] symbols[i]).name == name;
        assert(names[i] == name);
    }
}

/// Resolving a name of the source that was not resolved yet leaves fewer to
/// resolve.
pub proof fn lemma_resolving_decreases(source: Seq<SymbolView>, done: Seq<SymbolView>, name: Text)
    requires
        lookup(done, name) is None,
        lookup(source, name) is Some,
    ensures
        unresolved(source, done.push(lookup(source, name)->0)) < unresolved(source, done),
{
    let symbol = lookup(source, name)->0;
    let more = done.push(symbol);
    lemma_lookup_found(source, name);
    lemma_name_set(source, name);
    lemma_name_set(done, name);
    let before = name_set(source).difference(name_set(done));
    let after = name_set(source).difference(name_set(more));
    assert(after =~= before.remove(name)) by {
        assert forall|n: Text| after.contains(n) <==> before.remove(name).contains(n) by {
            lemma_name_set(done, n);
            lemma_name_set(more, n);
            assert(more.drop_last() =~= done);
        }
    }
}

/// What a walk over the declared dependencies finds.
pub struct Closure {
    /// The symbols reached, each once, in the order in which they were
    /// reached.
    pub resolved: Seq<SymbolView>,
    /// The names met that the source does not define, once for each time
    /// that one was met.
    pub missing: Seq<Text>,
}

/// Walks the declared dependencies from the names in `work`, given what is
/// already `done` and `missing`. The last name of `work` is taken first. A
/// name that is resolved already is passed over; one that the source defines
/// is resolved, and the names that its symbol depends on join the end of the
/// work list; one that the source does not define is recorded as missing.
pub open spec fn closure(
    source: Seq<SymbolView>,
    work: Seq<Text>,
    done: Seq<SymbolView>,
    missing: Seq<Text>,
) -> Closure
    decreases unresolved(source, done), work.len(),
{
    if work.len() == 0 {
        Closure { resolved: done, missing }
    } else {
        let current = work.last();
        let rest = work.drop_last();
        if lookup(done, current) is Some {
            closure(source, rest, done, missing)
        } else {
            match lookup(source, current) {
                Some(symbol) => {
                    proof {
                        lemma_resolving_decreases(source, done, current);
                    }
                    closure(source, rest + symbol.dependencies, done.push(symbol), missing)
                },
                None => closure(source, rest, done, missing.push(current)),
            }
        }
    }
}

/// Those of `names` that the source defines, in their order.
pub open spec fn known_names(source: Seq<SymbolView>, names: Seq<Text>) -> Seq<Text>
    decreases names.len(),
{
    if names.len() == 0 {
        Seq::empty()
    } else {
        let before = known_names(source, names.drop_last());
        if lookup(source, names.last()) is Some {
            before.push(names.last())
        } else {
            before
        }
    }
}

/// Those of `names` that the source does not define, in their order.
pub open spec fn unknown_names(source: Seq<SymbolView>, names: Seq<Text>) -> Seq<Text>
    decreases names.len(),
{
    if names.len() == 0 {
        Seq::empty()
    } else {
        let before = unknown_names(source, names.drop_last());
        if lookup(source, names.last()) is None {
            before.push(names.last())
        } else {
            before
        }
    }
}

/// What importing `names` from `source` into the table `dest` comes to.
pub struct ImportOutcome {
    /// The destination's table afterwards.
    pub symbols: Seq<SymbolView>,
    /// The errors met, in the order in which they are reported.
    pub errors: Seq<ImportErrorView>,
}

/// Importing `names` from `source` into `dest`: the requested names that the
/// source defines are the start of a walk over the declared dependencies, and
/// every symbol that the walk reaches is registered in `dest`. Reported are
/// the requested names that the source does not define, then the
/// dependencies that it does not define, then the symbols of `dest` that
/// stood in the way.
pub open spec fn import_outcome(
    dest: Seq<SymbolView>,
    names: Seq<Text>,
    source: Seq<SymbolView>,
) -> ImportOutcome {
    let found = closure(source, known_names(source, names), Seq::empty(), Seq::empty());
    ImportOutcome {
        symbols: registered_all(dest, found.resolved),
        errors: unknown_names(source, names).map_values(|n: Text| ImportErrorView::NoSuchSymbol(n))
            + found.missing.map_values(|n: Text| ImportErrorView::FailedDependency(n))
            + clashes(dest, found.resolved).map_values(
            |s: SymbolView| ImportErrorView::NameCollision(s),
        ),
    }
}

/// The names of the symbols, in their order.
pub open spec fn names_of(symbols: Seq<SymbolView>) -> Seq<Text> {
    symbols.map_values(|s: SymbolView| s.name)
}

/// A sequence of import errors, each seen as its view.
pub open spec fn import_errors_view(v: Seq<ImportError>) -> Seq<ImportErrorView> {
    v.map_values(|e: ImportError| e@)
}

/// The errors that the result of an import carries.
pub open spec fn reported(r: Result<(), Vec<ImportError>>) -> Seq<ImportErrorView> {
    match r {
        Ok(_) => Seq::empty(),
        Err(errors) => import_errors_view(errors@),
    }
}

/// The place of the first symbol called `name`, if there is one.
pub fn find(symbols: &Vec<Symbol>, name: &String) -> (r: Option<usize>)
    ensures
        match r {
            Some(i) => i < symbols.len() && lookup(symbols_view(symbols@), name@) == Some(
                symbols[i as int]@,
            ),
            None => lookup(symbols_view(symbols@), name@) is None,
        },
{
    let ghost all = symbols_view(symbols@);
    let mut i: usize = 0;
    while i < symbols.len()
        invariant
            i <= symbols.len(),
            all == symbols_view(symbols@),
            lookup(all.take(i as int), name@) is None,
        decreases symbols.len() - i,
    {
        assert(all.take(i + 1).drop_last() =~= all.take(i as int));
        if symbols[i].name == *name {
            proof {
                lemma_lookup_prefix(all, i + 1, name@);
            }
            return Some(i);
        }
        i += 1;
    }
    assert(all.take(i as int) =~= all);
    None
}

impl Project {
    /// The empty project.
    pub fn new() -> (r: Self)
        ensures
            r@ == empty_project(),
            r@.wf(),
    {
        let r = Self {
            symbols: Vec::new(),
            milestones: Vec::new(),
            languages: Vec::new(),
            words: Vec::new(),
            sound_changes: Vec::new(),
            tags: Vec::new(),
        };
        assert(r@.symbols =~= Seq::empty());
        assert(r@.languages =~= Seq::empty());
        assert(r@.words =~= Seq::empty());
        assert(r@.sound_changes =~= Seq::empty());
        assert(r@.tags =~= Seq::empty());
        r
    }

    /// The symbol registered under `name`, if there is one.
    pub fn get(&self, name: &str) -> (r: Option<&Symbol>)
        ensures
            match r {
                Some(s) => lookup(self@.symbols, name@) == Some(s@),
                None => lookup(self@.symbols, name@) is None,
            },
    {
        let wanted = name.to_owned();
        match find(&self.symbols, &wanted) {
            Some(i) => Some(&self.symbols[i]),
            None => None,
        }
    }

    /// Registers `symbol` under its name. Where the name is taken, the
    /// project stays as it is and the symbol that holds the name comes back.
    pub fn add_symbol(&mut self, symbol: Symbol) -> (r: Result<(), Symbol>)
        ensures
            final(self)@ == (ProjectView {
                symbols: registered(old(self)@.symbols, symbol@),
                ..old(self)@
            }),
            match r {
                Ok(_) => lookup(old(self)@.symbols, symbol@.name) is None,
                Err(held) => lookup(old(self)@.symbols, symbol@.name) == Some(held@),
            },
            old(self)@.wf() ==> final(self)@.wf(),
    {
        let held = match self.get(symbol.name.as_str()) {
            Some(clash) => Some(clash.clone()),
            None => None,
        };
        match held {
            Some(clash) => Err(clash),
            None => {
                proof {
                    lemma_lookup_found(self@.symbols, symbol@.name);
                    assert(symbols_view(self.symbols@.push(symbol)) =~= self@.symbols.push(symbol@));
                }
                self.symbols.push(symbol);
                Ok(())
            },
        }
    }

    /// Registers each of `symbols` in turn. Those whose name is free are
    /// kept, whatever happens to the others; for each of the others the
    /// symbol that holds its name comes back, in the same order.
    pub fn add_all_symbols(&mut self, symbols: Vec<Symbol>) -> (r: Result<(), Vec<Symbol>>)
        ensures
            final(self)@ == (ProjectView {
                symbols: registered_all(old(self)@.symbols, symbols_view(symbols@)),
                ..old(self)@
            }),
            match r {
                Ok(_) => clashes(old(self)@.symbols, symbols_view(symbols@)).len() == 0,
                Err(held) => held.len() > 0 && symbols_view(held@) == clashes(
                    old(self)@.symbols,
                    symbols_view(symbols@),
                ),
            },
            old(self)@.wf() ==> final(self)@.wf(),
    {
        let ghost new = symbols_view(symbols@);
        let mut held: Vec<Symbol> = Vec::new();
        for s in it: symbols
            invariant
                symbols_view(it.seq()) == new,
                self@ == (ProjectView {
                    symbols: registered_all(old(self)@.symbols, new.take(it.index() as int)),
                    ..old(self)@
                }),
                symbols_view(held@) == clashes(old(self)@.symbols, new.take(it.index() as int)),
                old(self)@.wf() ==> self@.wf(),
        {
            proof {
                let done = it.index() as int;
                assert(new.take(done + 1).drop_last() =~= new.take(done));
            }
            if let Err(clash) = self.add_symbol(s) {
                proof {
                    assert(symbols_view(held@.push(clash)) =~= symbols_view(held@).push(clash@));
                }
                held.push(clash);
            }
        }
        assert(new.take(new.len() as int) =~= new);
        if held.len() == 0 {
            Ok(())
        } else {
            Err(held)
        }
    }

    /// Imports `names` from `other`, with everything that they depend on.
    /// Each symbol reached is registered unless its name is taken; what was
    /// registered stays, whatever else fails.
    pub fn import(&mut self, names: &[&str], other: &Self) -> (r: Result<(), Vec<ImportError>>)
        ensures
            final(self)@ == (ProjectView {
                symbols: import_outcome(
                    old(self)@.symbols,
                    strs_view(names@),
                    other@.symbols,
                ).symbols,
                ..old(self)@
            }),
            reported(r) == import_outcome(
                old(self)@.symbols,
                strs_view(names@),
                other@.symbols,
            ).errors,
            r is Ok <==> reported(r).len() == 0,
            old(self)@.wf() ==> final(self)@.wf(),
    {
        let ghost source = other@.symbols;
        let ghost wanted = strs_view(names@);
        let mut imports: Vec<Symbol> = Vec::new();
        let mut errors: Vec<ImportError> = Vec::new();
        let mut deps: Vec<String> = Vec::new();

        let mut i: usize = 0;
        while i < names.len()
            invariant
                i <= names.len(),
                source == other@.symbols,
                wanted == strs_view(names@),
                names_view(deps@) == known_names(source, wanted.take(i as int)),
                import_errors_view(errors@) == unknown_names(source, wanted.take(i as int)).map_values(
                    |n: Text| ImportErrorView::NoSuchSymbol(n),
                ),
            decreases names.len() - i,
        {
            let name = names[i].to_owned();
            proof {
                assert(wanted.take(i + 1).drop_last() =~= wanted.take(i as int));
            }
            match find(&other.symbols, &name) {
                Some(_) => {
                    proof {
                        assert(names_view(deps@.push(name)) =~= names_view(deps@).push(name@));
                    }
                    deps.push(name);
                },
                None => {
                    let error = ImportError::NoSuchSymbol(name);
                    proof {
                        assert(unknown_names(source, wanted.take(i + 1)).map_values(
                            |n: Text| ImportErrorView::NoSuchSymbol(n),
                        ) =~= unknown_names(source, wanted.take(i as int)).map_values(
                            |n: Text| ImportErrorView::NoSuchSymbol(n),
                        ).push(error@));
                    }
                    errors.push(error);
                },
            }
            i += 1;
        }
        assert(wanted.take(i as int) =~= wanted);

        let ghost unknown = unknown_names(source, wanted).map_values(
            |n: Text| ImportErrorView::NoSuchSymbol(n),
        );
        let ghost goal = closure(source, known_names(source, wanted), Seq::empty(), Seq::empty());
        let ghost mut missing: Seq<Text> = Seq::empty();
        assert(symbols_view(imports@) =~= Seq::empty());
        while deps.len() > 0
            invariant
                source == other@.symbols,
                closure(source, names_view(deps@), symbols_view(imports@), missing) == goal,
                import_errors_view(errors@) == unknown + missing.map_values(
                    |n: Text| ImportErrorView::FailedDependency(n),
                ),
            decreases unresolved(source, symbols_view(imports@)), deps.len(),
        {
            let ghost work = names_view(deps@);
            let current = deps.pop().unwrap();
            assert(names_view(deps@) =~= work.drop_last());
            if find(&imports, &current).is_some() {
                continue ;
            }
            match find(&other.symbols, &current) {
                Some(at) => {
                    let symbol = other.symbols[at].clone();
                    let mut more = copy_names(&symbol.dependencies);
                    proof {
                        lemma_resolving_decreases(source, symbols_view(imports@), current@);
                        assert(symbols_view(imports@.push(symbol)) =~= symbols_view(imports@).push(
                            symbol@,
                        ));
                        assert(names_view(deps@ + more@) =~= work.drop_last()
                            + symbol@.dependencies);
                    }
                    imports.push(symbol);
                    deps.append(&mut more);
                },
                None => {
                    let error = ImportError::FailedDependency(current);
                    proof {
                        assert(import_errors_view(errors@.push(error)) =~= import_errors_view(
                            errors@,
                        ).push(error@));
                        missing = missing.push(current@);
                    }
                    errors.push(error);
                },
            }
        }

        if let Err(held) = self.add_all_symbols(imports) {
            let ghost so_far = import_errors_view(errors@);
            let ghost all = symbols_view(held@);
            for clash in it: held
                invariant
                    symbols_view(it.seq()) == all,
                    import_errors_view(errors@) == so_far + all.take(it.index() as int).map_values(
                        |s: SymbolView| ImportErrorView::NameCollision(s),
                    ),
            {
                let error = ImportError::NameCollision(clash);
                proof {
                    assert(import_errors_view(errors@.push(error)) =~= import_errors_view(
                        errors@,
                    ).push(error@));
                }
                errors.push(error);
            }
        } else {
            assert(import_errors_view(errors@) =~= import_errors_view(errors@) + Seq::<
                SymbolView,
            >::empty().map_values(|s: SymbolView| ImportErrorView::NameCollision(s)));
        }

        if errors.len() > 0 {
            Err(errors)
        } else {
            Ok(())
        }
    }

    /// Imports every symbol of `other`: an import of all its names, in the
    /// order of its table.
    pub fn import_all_from(&mut self, other: &Project) -> (r: Result<(), Vec<ImportError>>)
        ensures
            final(self)@ == (ProjectView {
                symbols: import_outcome(
                    old(self)@.symbols,
                    names_of(other@.symbols),
                    other@.symbols,
                ).symbols,
                ..old(self)@
            }),
            reported(r) == import_outcome(
                old(self)@.symbols,
                names_of(other@.symbols),
                other@.symbols,
            ).errors,
            r is Ok <==> reported(r).len() == 0,
            old(self)@.wf() ==> final(self)@.wf(),
    {
        let mut names: Vec<&str> = Vec::new();
        let mut i: usize = 0;
        while i < other.symbols.len()
            invariant
                i <= other.symbols.len(),
                strs_view(names@) == names_of(other@.symbols.take(i as int)),
            decreases other.symbols.len() - i,
        {
            let name = other.symbols[i].name.as_str();
            proof {
                assert(names_of(other@.symbols.take(i + 1)) =~= names_of(
                    other@.symbols.take(i as int),
                ).push(name@));
            }
            names.push(name);
            i += 1;
        }
        assert(other@.symbols.take(i as int) =~= other@.symbols);
        self.import(names.as_slice(), other)
    }
}

} // verus!
