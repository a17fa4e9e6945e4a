//! What holds of the symbol table and of imports, whatever the symbols are.

use crate::project::{
    clashes, closure, distinct_names, import_outcome, known_names, lemma_lookup_found,
    lemma_lookup_prefix, lemma_resolving_decreases, lookup, names_of, registered, registered_all,
    table, unknown_names, unresolved, ImportErrorView, SymbolView,
};
use crate::syntax::Text;
use vstd::prelude::*;

verus! {

/// A name that a table holds is held, by the same symbol, by every table
/// that the first is the beginning of.
pub proof fn lemma_lookup_extends(a: Seq<SymbolView>, b: Seq<SymbolView>, name: Text)
    requires
        a.is_prefix_of(b),
        lookup(a, name) is Some,
    ensures
        lookup(b, name) == lookup(a, name),
{
    lemma_lookup_prefix(b, a.len() as int, name);
}

/// Registering the same name twice: the first symbol is registered, the
/// second is turned away by the first, and the table holds, beside what it
/// held, the first alone.
pub proof fn law_second_registration_is_rejected(
    symbols: Seq<SymbolView>,
    first: SymbolView,
    second: SymbolView,
)
    requires
        lookup(symbols, first.name) is None,
        second.name == first.name,
    ensures
        registered(symbols, first) == symbols.push(first),
        lookup(registered(symbols, first), second.name) == Some(first),
        registered(registered(symbols, first), second) == symbols.push(first),
        table(symbols.push(first))[first.name] == first,
        distinct_names(symbols) ==> distinct_names(symbols.push(first)),
{
    assert(symbols.push(first).drop_last() =~= symbols);
    lemma_lookup_found(symbols, first.name);
}

/// Registering symbols only adds to the end of a table.
pub proof fn lemma_registered_all_extends(symbols: Seq<SymbolView>, new: Seq<SymbolView>)
    ensures
        symbols.is_prefix_of(registered_all(symbols, new)),
        distinct_names(symbols) ==> distinct_names(registered_all(symbols, new)),
    decreases new.len(),
{
    if new.len() > 0 {
        lemma_registered_all_extends(symbols, new.drop_last());
        let before = registered_all(symbols, new.drop_last());
        lemma_lookup_found(before, new.last().name);
    }
}

/// A symbol whose name the table holds from the start is turned away, and
/// the symbol that holds the name is among the clashes.
pub proof fn lemma_clash_is_reported(symbols: Seq<SymbolView>, new: Seq<SymbolView>, i: int)
    requires
        0 <= i < new.len(),
        lookup(symbols, new[i].name) is Some,
    ensures
        clashes(symbols, new).contains(lookup(symbols, new[i].name)->0),
    decreases new.len(),
{
    let held = lookup(symbols, new[i].name)->0;
    let earlier = clashes(symbols, new.drop_last());
    if i == new.len() - 1 {
        let before = registered_all(symbols, new.drop_last());
        lemma_registered_all_extends(symbols, new.drop_last());
        lemma_lookup_extends(symbols, before, new[i].name);
        assert(earlier.push(held)[earlier.len() as int] == held);
    } else {
        lemma_clash_is_reported(symbols, new.drop_last(), i);
        let k = choose|k: int| 0 <= k < earlier.len() && earlier[k] == held;
        assert(clashes(symbols, new)[k] == held);
    }
}

/// Into an empty table, symbols of distinct names are all registered.
pub proof fn lemma_registered_into_empty(new: Seq<SymbolView>)
    requires
        distinct_names(new),
    ensures
        registered_all(Seq::empty(), new) == new,
        clashes(Seq::empty(), new) == Seq::<SymbolView>::empty(),
    decreases new.len(),
{
    if new.len() > 0 {
        let front = new.drop_last();
        lemma_registered_into_empty(front);
        lemma_lookup_found(front, new.last().name);
    } else {
        assert(new =~= Seq::empty());
    }
}

/// Every symbol of `done` is the one that the source holds under its name.
pub open spec fn from_source(source: Seq<SymbolView>, done: Seq<SymbolView>) -> bool {
    forall|i: int| 0 <= i < done.len() ==> lookup(source, (#[trigger] done[i]).name) == Some(done[i])
}

/// A name is dealt with: resolved, where the source defines it, and recorded
/// as missing, where it does not.
pub open spec fn settled(
    source: Seq<SymbolView>,
    resolved: Seq<SymbolView>,
    missing: Seq<Text>,
    name: Text,
) -> bool {
    if lookup(source, name) is Some {
        lookup(resolved, name) is Some
    } else {
        missing.contains(name)
    }
}

/// What a walk over the declared dependencies comes to: what was resolved
/// and missing before stays, in its place; the resolved symbols bear
/// distinct names and are the source's own; every name of the work list is
/// dealt with, and so is every name that a newly resolved symbol depends on.
pub proof fn lemma_closure(
    source: Seq<SymbolView>,
    work: Seq<Text>,
    done: Seq<SymbolView>,
    missing: Seq<Text>,
)
    requires
        distinct_names(done),
        from_source(source, done),
    ensures
        ({
            let c = closure(source, work, done, missing);
            &&& done.is_prefix_of(c.resolved)
            &&& missing.is_prefix_of(c.missing)
            &&& distinct_names(c.resolved)
            &&& from_source(source, c.resolved)
            &&& forall|k: int|
                0 <= k < work.len() ==> settled(source, c.resolved, c.missing, #[trigger] work[k])
            &&& forall|i: int, j: int|
                done.len() <= i < c.resolved.len() && 0 <= j < c.resolved[i].dependencies.len()
                    ==> settled(
                    source,
                    c.resolved,
                    c.missing,
                    #[trigger] c.resolved[i].dependencies[j],
                )
        }),
    decreases unresolved(source, done), work.len(),
{
    let c = closure(source, work, done, missing);
    if work.len() > 0 {
        let current = work.last();
        let rest = work.drop_last();
        lemma_lookup_found(done, current);
        lemma_lookup_found(source, current);
        if lookup(done, current) is Some {
            lemma_closure(source, rest, done, missing);
            lemma_lookup_extends(done, c.resolved, current);
            assert forall|k: int| 0 <= k < work.len() implies settled(
                source,
                c.resolved,
                c.missing,
                #[trigger] work[k],
            ) by {
                if k < rest.len() {
                    assert(rest[k] == work[k]);
                }
            }
        } else if lookup(source, current) is Some {
            let symbol = lookup(source, current)->0;
            let more = done.push(symbol);
            let next = rest + symbol.dependencies;
            lemma_resolving_decreases(source, done, current);
            lemma_closure(source, next, more, missing);
            lemma_lookup_extends(more, c.resolved, current);
            assert(c.resolved[done.len() as int] == symbol) by {
                assert(c.resolved.take(more.len() as int) =~= more);
            }
            assert forall|k: int| 0 <= k < work.len() implies settled(
                source,
                c.resolved,
                c.missing,
                #[trigger] work[k],
            ) by {
                if k < rest.len() {
                    assert(next[k] == work[k]);
                }
            }
            assert forall|i: int, j: int|
                done.len() <= i < c.resolved.len() && 0 <= j
                    < c.resolved[i].dependencies.len() implies settled(
                source,
                c.resolved,
                c.missing,
                #[trigger] c.resolved[i].dependencies[j],
            ) by {
                if i == done.len() {
                    assert(next[rest.len() + j] == symbol.dependencies[j]);
                }
            }
        } else {
            let noted = missing.push(current);
            lemma_closure(source, rest, done, noted);
            assert(noted[missing.len() as int] == current);
            assert forall|k: int| 0 <= k < work.len() implies settled(
                source,
                c.resolved,
                c.missing,
                #[trigger] work[k],
            ) by {
                if k < rest.len() {
                    assert(rest[k] == work[k]);
                }
            }
        }
    }
}

/// Every name that a symbol of the table depends on is defined in the
/// table.
pub open spec fn self_contained(source: Seq<SymbolView>) -> bool {
    forall|i: int, j: int|
        0 <= i < source.len() && 0 <= j < source[i].dependencies.len() ==> lookup(
            source,
            #[trigger] source[i].dependencies[j],
        ) is Some
}

/// A walk through a self-contained source, from names that it defines, finds
/// nothing missing.
pub proof fn lemma_closure_of_self_contained(
    source: Seq<SymbolView>,
    work: Seq<Text>,
    done: Seq<SymbolView>,
    missing: Seq<Text>,
)
    requires
        self_contained(source),
        forall|k: int| 0 <= k < work.len() ==> lookup(source, #[trigger] work[k]) is Some,
    ensures
        closure(source, work, done, missing).missing == missing,
    decreases unresolved(source, done), work.len(),
{
    if work.len() > 0 {
        let current = work.last();
        let rest = work.drop_last();
        assert forall|k: int| 0 <= k < rest.len() implies lookup(source, #[trigger] rest[k]) is Some by {
            assert(rest[k] == work[k]);
        }
        if lookup(done, current) is Some {
            lemma_closure_of_self_contained(source, rest, done, missing);
        } else {
            let symbol = lookup(source, current)->0;
            let next = rest + symbol.dependencies;
            lemma_resolving_decreases(source, done, current);
            lemma_lookup_found(source, current);
            let at = choose|at: int| 0 <= at < source.len() && source[at] == symbol;
            assert forall|k: int| 0 <= k < next.len() implies lookup(
                source,
                #[trigger] next[k],
            ) is Some by {
                if k < rest.len() {
                    assert(next[k] == rest[k]);
                } else {
                    assert(next[k] == source[at].dependencies[k - rest.len()]);
                }
            }
            lemma_closure_of_self_contained(source, next, done.push(symbol), missing);
        }
    }
}

/// The names that a table defines are all known to it.
pub proof fn lemma_own_names_known(source: Seq<SymbolView>, k: int)
    requires
        0 <= k <= source.len(),
    ensures
        known_names(source, names_of(source).take(k)) == names_of(source).take(k),
        unknown_names(source, names_of(source).take(k)) == Seq::<Text>::empty(),
    decreases k,
{
    let names = names_of(source).take(k);
    if k > 0 {
        lemma_own_names_known(source, k - 1);
        assert(names.drop_last() =~= names_of(source).take(k - 1));
        lemma_lookup_found(source, names.last());
    } else {
        assert(names =~= Seq::empty());
    }
}

/// Importing every symbol of a self-contained table into an empty one
/// reports nothing and leaves a table that maps the same names to the same
/// symbols.
pub proof fn law_import_all_into_empty(source: Seq<SymbolView>)
    requires
        self_contained(source),
    ensures
        import_outcome(Seq::empty(), names_of(source), source).errors == Seq::<
            ImportErrorView,
        >::empty(),
        table(import_outcome(Seq::empty(), names_of(source), source).symbols) == table(source),
        distinct_names(import_outcome(Seq::empty(), names_of(source), source).symbols),
{
    let names = names_of(source);
    lemma_own_names_known(source, source.len() as int);
    assert(names.take(source.len() as int) =~= names);
    let none = Seq::<SymbolView>::empty();
    let c = closure(source, names, none, Seq::empty());
    lemma_closure(source, names, none, Seq::empty());
    assert forall|k: int| 0 <= k < names.len() implies lookup(source, #[trigger] names[k]) is Some by {
        lemma_lookup_found(source, names[k]);
    }
    lemma_closure_of_self_contained(source, names, none, Seq::empty());
    lemma_registered_into_empty(c.resolved);
    let outcome = import_outcome(none, names, source);
    assert(outcome.symbols == c.resolved);
    assert forall|n: Text| lookup(c.resolved, n) == lookup(source, n) by {
        lemma_lookup_found(source, n);
        lemma_lookup_found(c.resolved, n);
        if lookup(source, n) is Some {
            let i = choose|i: int| 0 <= i < source.len() && (#[trigger] source[i]).name == n;
            assert(settled(source, c.resolved, c.missing, names[i]));
        }
    }
}

/// A requested name that the source defines is imported with what it
/// depends on: a dependency that the source does not define is reported as
/// failed, whatever else was requested and whatever the destination holds.
pub proof fn law_missing_dependency_is_reported(
    dest: Seq<SymbolView>,
    names: Seq<Text>,
    source: Seq<SymbolView>,
    k: int,
    j: int,
)
    requires
        0 <= k < names.len(),
        lookup(source, names[k]) is Some,
        0 <= j < (lookup(source, names[k])->0).dependencies.len(),
        lookup(source, (lookup(source, names[k])->0).dependencies[j]) is None,
    ensures
        import_outcome(dest, names, source).errors.contains(
            ImportErrorView::FailedDependency((lookup(source, names[k])->0).dependencies[j]),
        ),
{
    let symbol = lookup(source, names[k])->0;
    let dep = symbol.dependencies[j];
    let known = known_names(source, names);
    let none = Seq::<SymbolView>::empty();
    let c = closure(source, known, none, Seq::empty());
    lemma_known_holds(source, names, k);
    lemma_closure(source, known, none, Seq::empty());
    lemma_lookup_found(c.resolved, names[k]);
    let m = choose|m: int| 0 <= m < c.missing.len() && c.missing[m] == dep;
    let errors = import_outcome(dest, names, source).errors;
    let first = unknown_names(source, names).len();
    assert(errors[first + m] == ImportErrorView::FailedDependency(dep));
}

/// A requested name that the source defines is among the known names.
pub proof fn lemma_known_holds(source: Seq<SymbolView>, names: Seq<Text>, k: int)
    requires
        0 <= k < names.len(),
        lookup(source, names[k]) is Some,
    ensures
        known_names(source, names).contains(names[k]),
    decreases names.len(),
{
    let known = known_names(source, names);
    if k == names.len() - 1 {
        assert(known[known.len() - 1] == names[k]);
    } else {
        lemma_known_holds(source, names.drop_last(), k);
        let before = known_names(source, names.drop_last());
        let at = choose|at: int| 0 <= at < before.len() && before[at] == names[k];
        assert(known[at] == names[k]);
    }
}

/// An import adds to the end of the destination's table and changes nothing
/// that it held. A requested name that the source defines and that the
/// destination holds already is reported as a collision, with the symbol
/// that the destination holds, and that symbol stays under the name.
pub proof fn law_import_does_not_overwrite(
    dest: Seq<SymbolView>,
    names: Seq<Text>,
    source: Seq<SymbolView>,
    k: int,
)
    requires
        0 <= k < names.len(),
        lookup(source, names[k]) is Some,
        lookup(dest, names[k]) is Some,
    ensures
        dest.is_prefix_of(import_outcome(dest, names, source).symbols),
        import_outcome(dest, names, source).errors.contains(
            ImportErrorView::NameCollision(lookup(dest, names[k])->0),
        ),
        lookup(import_outcome(dest, names, source).symbols, names[k]) == lookup(dest, names[k]),
{
    let held = lookup(dest, names[k])->0;
    let known = known_names(source, names);
    let none = Seq::<SymbolView>::empty();
    let c = closure(source, known, none, Seq::empty());
    lemma_known_holds(source, names, k);
    lemma_closure(source, known, none, Seq::empty());
    lemma_lookup_found(c.resolved, names[k]);
    let found = lookup(c.resolved, names[k])->0;
    let i = choose|i: int| 0 <= i < c.resolved.len() && c.resolved[i] == found;
    lemma_clash_is_reported(dest, c.resolved, i);
    lemma_registered_all_extends(dest, c.resolved);
    lemma_lookup_extends(dest, registered_all(dest, c.resolved), names[k]);
    let stood = clashes(dest, c.resolved);
    let m = choose|m: int| 0 <= m < stood.len() && stood[m] == held;
    let errors = import_outcome(dest, names, source).errors;
    let first = unknown_names(source, names).len() + c.missing.len();
    assert(errors[first + m] == ImportErrorView::NameCollision(held));
}

/// Registering symbols fills the names that were free: a name is held
/// afterwards by the symbol that held it before or, where it was free, by
/// the first of the new symbols that bears it.
pub proof fn lemma_registered_all_lookup(symbols: Seq<SymbolView>, new: Seq<SymbolView>, name: Text)
    ensures
        lookup(registered_all(symbols, new), name) == if lookup(symbols, name) is Some {
            lookup(symbols, name)
        } else {
            lookup(new, name)
        },
    decreases new.len(),
{
    if new.len() > 0 {
        let front = new.drop_last();
        let before = registered_all(symbols, front);
        lemma_registered_all_lookup(symbols, front, name);
        lemma_registered_all_lookup(symbols, front, new.last().name);
        if lookup(before, new.last().name) is None {
            assert(before.push(new.last()).drop_last() =~= before);
        }
    }
}

/// A chain of dependencies: every name of it is defined in the source, and
/// each name but the first is one that the symbol of the name before it
/// depends on.
pub open spec fn is_chain(source: Seq<SymbolView>, chain: Seq<Text>) -> bool {
    &&& chain.len() > 0
    &&& forall|i: int| 0 <= i < chain.len() ==> lookup(source, #[trigger] chain[i]) is Some
    &&& forall|i: int|
        0 < i < chain.len() ==> (lookup(source, chain[i - 1])->0).dependencies.contains(
            #[trigger] chain[i],
        )
}

/// A chain of dependencies leads from one of `roots` to `name`.
pub open spec fn reached(source: Seq<SymbolView>, roots: Seq<Text>, name: Text) -> bool {
    exists|chain: Seq<Text>|
        #[trigger] is_chain(source, chain) && roots.contains(chain[0]) && chain.last() == name
}

/// A requested name that the source defines is reached.
proof fn lemma_reached_root(source: Seq<SymbolView>, roots: Seq<Text>, name: Text)
    requires
        roots.contains(name),
        lookup(source, name) is Some,
    ensures
        reached(source, roots, name),
{
    let chain = seq![name];
    assert(is_chain(source, chain));
}

/// What a reached name depends on is reached, where the source defines it.
proof fn lemma_reached_further(source: Seq<SymbolView>, roots: Seq<Text>, name: Text, j: int)
    requires
        reached(source, roots, name),
        0 <= j < (lookup(source, name)->0).dependencies.len(),
        lookup(source, (lookup(source, name)->0).dependencies[j]) is Some,
    ensures
        reached(source, roots, (lookup(source, name)->0).dependencies[j]),
{
    let dep = (lookup(source, name)->0).dependencies[j];
    let chain = choose|chain: Seq<Text>|
        #[trigger] is_chain(source, chain) && roots.contains(chain[0]) && chain.last() == name;
    let longer = chain.push(dep);
    assert forall|i: int| 0 <= i < longer.len() implies lookup(source, #[trigger] longer[i]) is Some by {
        if i < chain.len() {
            assert(longer[i] == chain[i]);
        }
    }
    assert forall|i: int| 0 < i < longer.len() implies (lookup(
        source,
        longer[i - 1],
    )->0).dependencies.contains(#[trigger] longer[i]) by {
        if i < chain.len() {
            assert(longer[i - 1] == chain[i - 1]);
        } else {
            assert(longer[i - 1] == name);
        }
    }
    assert(is_chain(source, longer));
}

/// The known names are among the names.
proof fn lemma_known_is_requested(source: Seq<SymbolView>, names: Seq<Text>, k: int)
    requires
        0 <= k < known_names(source, names).len(),
    ensures
        names.contains(known_names(source, names)[k]),
        lookup(source, known_names(source, names)[k]) is Some,
    decreases names.len(),
{
    if names.len() > 0 {
        let before = known_names(source, names.drop_last());
        if k < before.len() {
            lemma_known_is_requested(source, names.drop_last(), k);
        } else {
            assert(names[names.len() - 1] == names.last());
        }
    }
}

/// A walk resolves nothing but what is reached, given that this holds of
/// what is resolved already and of the names of the work list that the
/// source defines.
proof fn lemma_closure_stays_within(
    source: Seq<SymbolView>,
    roots: Seq<Text>,
    work: Seq<Text>,
    done: Seq<SymbolView>,
    missing: Seq<Text>,
)
    requires
        forall|k: int|
            0 <= k < work.len() && lookup(source, #[trigger] work[k]) is Some ==> reached(
                source,
                roots,
                work[k],
            ),
        forall|i: int| 0 <= i < done.len() ==> reached(source, roots, (#[trigger] done[i]).name),
    ensures
        forall|i: int|
            0 <= i < closure(source, work, done, missing).resolved.len() ==> reached(
                source,
                roots,
                (#[trigger] closure(source, work, done, missing).resolved[i]).name,
            ),
    decreases unresolved(source, done), work.len(),
{
    if work.len() > 0 {
        let current = work.last();
        let rest = work.drop_last();
        assert forall|k: int|
            0 <= k < rest.len() && lookup(source, #[trigger] rest[k]) is Some implies reached(
            source,
            roots,
            rest[k],
        ) by {
            assert(rest[k] == work[k]);
        }
        if lookup(done, current) is Some {
            lemma_closure_stays_within(source, roots, rest, done, missing);
        } else if lookup(source, current) is Some {
            let symbol = lookup(source, current)->0;
            let more = done.push(symbol);
            let next = rest + symbol.dependencies;
            lemma_resolving_decreases(source, done, current);
            lemma_lookup_found(source, current);
            assert forall|k: int|
                0 <= k < next.len() && lookup(source, #[trigger] next[k]) is Some implies reached(
                source,
                roots,
                next[k],
            ) by {
                if k < rest.len() {
                    assert(next[k] == rest[k]);
                } else {
                    lemma_reached_further(source, roots, current, k - rest.len());
                }
            }
            assert forall|i: int| 0 <= i < more.len() implies reached(
                source,
                roots,
                (#[trigger] more[i]).name,
            ) by {
                if i < done.len() {
                    assert(more[i] == done[i]);
                }
            }
            lemma_closure_stays_within(source, roots, next, more, missing);
        } else {
            lemma_closure_stays_within(source, roots, rest, done, missing.push(current));
        }
    }
}

/// What is reached along a chain is resolved.
proof fn lemma_chain_is_resolved(
    source: Seq<SymbolView>,
    names: Seq<Text>,
    chain: Seq<Text>,
    upto: int,
)
    requires
        is_chain(source, chain),
        names.contains(chain[0]),
        0 <= upto < chain.len(),
    ensures
        lookup(
            closure(source, known_names(source, names), Seq::empty(), Seq::empty()).resolved,
            chain[upto],
        ) is Some,
    decreases upto,
{
    let known = known_names(source, names);
    let c = closure(source, known, Seq::empty(), Seq::empty());
    lemma_closure(source, known, Seq::empty(), Seq::empty());
    if upto == 0 {
        let k = choose|k: int| 0 <= k < names.len() && names[k] == chain[0];
        lemma_known_holds(source, names, k);
    } else {
        lemma_chain_is_resolved(source, names, chain, upto - 1);
        let before = chain[upto - 1];
        lemma_lookup_found(c.resolved, before);
    }
}

/// An import brings the dependency closure of the requested names, no more
/// and no less: afterwards the table holds a name exactly if it held the
/// name before or a chain of dependencies leads to the name from a requested
/// one, and it holds the name by the symbol that held it before or else by
/// the symbol of the source.
pub proof fn law_import_brings_the_closure(
    dest: Seq<SymbolView>,
    names: Seq<Text>,
    source: Seq<SymbolView>,
    name: Text,
)
    ensures
        lookup(import_outcome(dest, names, source).symbols, name) == if lookup(dest, name)
            is Some {
            lookup(dest, name)
        } else if reached(source, names, name) {
            lookup(source, name)
        } else {
            None
        },
{
    let known = known_names(source, names);
    let none = Seq::<SymbolView>::empty();
    let c = closure(source, known, none, Seq::empty());
    lemma_registered_all_lookup(dest, c.resolved, name);
    lemma_closure(source, known, none, Seq::empty());
    lemma_lookup_found(c.resolved, name);
    if reached(source, names, name) {
        let chain = choose|chain: Seq<Text>|
            #[trigger] is_chain(source, chain) && names.contains(chain[0]) && chain.last() == name;
        lemma_chain_is_resolved(source, names, chain, chain.len() - 1);
    }
    if lookup(c.resolved, name) is Some {
        assert forall|k: int|
            0 <= k < known.len() && lookup(source, #[trigger] known[k]) is Some implies reached(
            source,
            names,
            known[k],
        ) by {
            lemma_known_is_requested(source, names, k);
            lemma_reached_root(source, names, known[k]);
        }
        lemma_closure_stays_within(source, names, known, none, Seq::empty());
    }
}

/// A requested name that the source defines is in the table afterwards:
/// held by the symbol that held it before or, where it was free, by the
/// symbol of the source.
pub proof fn law_requested_name_is_brought(
    dest: Seq<SymbolView>,
    names: Seq<Text>,
    source: Seq<SymbolView>,
    k: int,
)
    requires
        0 <= k < names.len(),
        lookup(source, names[k]) is Some,
    ensures
        lookup(import_outcome(dest, names, source).symbols, names[k]) == if lookup(dest, names[k])
            is Some {
            lookup(dest, names[k])
        } else {
            lookup(source, names[k])
        },
{
    lemma_reached_root(source, names, names[k]);
    law_import_brings_the_closure(dest, names, source, names[k]);
}

} // verus!
