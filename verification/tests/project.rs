use chronlang_engine::language::Language;
use chronlang_engine::project::{find, Entity, ImportError, Location, Project, Symbol};
use chronlang_parser::ast::Series;

fn series(name: &str, dependencies: &[&str]) -> Symbol {
    Symbol {
        name: name.into(),
        loc: Location { source_name: "table".into(), span: 0..1 },
        value: Entity::Series {
            label: (0..1, name.into()),
            series: (
                2..3,
                Series::List(dependencies.iter().map(|d| (2..3, d.to_string())).collect()),
            ),
        },
        dependencies: dependencies.iter().map(|d| d.to_string()).collect(),
    }
}

fn language(name: &str) -> Symbol {
    Symbol {
        name: name.into(),
        loc: Location { source_name: "table".into(), span: 5..9 },
        value: Entity::Language(Language::new(&(5..9, name.into()), &None, &None)),
        dependencies: vec![],
    }
}

fn project_of(symbols: Vec<Symbol>) -> Project {
    let mut project = Project::new();
    for symbol in symbols {
        assert_eq!(project.add_symbol(symbol), Ok(()));
    }
    project
}

fn names(project: &Project) -> Vec<String> {
    project.symbols.iter().map(|s| s.name.clone()).collect()
}

#[test]
fn a_new_project_is_empty() {
    let project = Project::new();
    assert!(project.symbols.is_empty());
    assert!(project.milestones.is_empty());
    assert!(project.languages.is_empty());
    assert!(project.words.is_empty());
    assert!(project.sound_changes.is_empty());
    assert!(project.tags.is_empty());
    assert_eq!(project.get("A"), None);
}

#[test]
fn add_symbol_registers_a_free_name() {
    let mut project = Project::new();
    assert_eq!(project.add_symbol(series("A", &["x"])), Ok(()));
    assert_eq!(project.add_symbol(series("B", &[])), Ok(()));
    assert_eq!(names(&project), vec!["A", "B"]);
    assert_eq!(project.get("A"), Some(&series("A", &["x"])));
    assert_eq!(project.get("B"), Some(&series("B", &[])));
    assert_eq!(project.get("x"), None);
}

#[test]
fn add_symbol_turns_a_taken_name_away_with_the_first_symbol() {
    let mut project = Project::new();
    assert_eq!(project.add_symbol(series("A", &["x"])), Ok(()));
    // The second symbol is of another kind: only the name counts.
    assert_eq!(project.add_symbol(language("A")), Err(series("A", &["x"])));
    assert_eq!(project.symbols, vec![series("A", &["x"])]);
    assert_eq!(project.get("A"), Some(&series("A", &["x"])));
}

#[test]
fn add_all_symbols_keeps_every_symbol_whose_name_is_free() {
    let mut project = project_of(vec![series("A", &[]), series("C", &["q"])]);
    let outcome = project.add_all_symbols(vec![
        series("B", &[]),
        language("A"),
        series("D", &[]),
        language("C"),
        series("B", &["late"]),
    ]);
    assert_eq!(
        outcome,
        Err(vec![series("A", &[]), series("C", &["q"]), series("B", &[])])
    );
    assert_eq!(names(&project), vec!["A", "C", "B", "D"]);
}

#[test]
fn add_all_symbols_is_in_order_where_nothing_clashes() {
    let mut project = Project::new();
    assert_eq!(project.add_all_symbols(vec![series("A", &[]), series("B", &[])]), Ok(()));
    assert_eq!(project.add_all_symbols(vec![]), Ok(()));
    assert_eq!(names(&project), vec!["A", "B"]);
}

#[test]
fn import_brings_everything_that_a_name_depends_on() {
    let source = project_of(vec![
        series("A", &["B", "C"]),
        series("B", &["D"]),
        series("C", &[]),
        series("D", &[]),
        series("E", &[]),
    ]);
    let mut project = Project::new();
    assert_eq!(project.import(&["A"], &source), Ok(()));
    // The dependency written last is followed first.
    assert_eq!(names(&project), vec!["A", "C", "B", "D"]);
    assert_eq!(project.get("B"), Some(&series("B", &["D"])));
    assert_eq!(project.get("E"), None);
}

#[test]
fn import_reports_a_name_that_the_source_does_not_define() {
    let source = project_of(vec![series("A", &[])]);
    let mut project = Project::new();
    assert_eq!(
        project.import(&["Z", "A", "Y"], &source),
        Err(vec![ImportError::NoSuchSymbol("Z".into()), ImportError::NoSuchSymbol("Y".into())])
    );
    // What could be imported stays imported.
    assert_eq!(names(&project), vec!["A"]);
}

#[test]
fn import_reports_a_dependency_that_the_source_does_not_define() {
    let source = project_of(vec![series("A", &["gone", "B"]), series("B", &["gone"])]);
    let mut project = Project::new();
    assert_eq!(
        project.import(&["A"], &source),
        Err(vec![
            ImportError::FailedDependency("gone".into()),
            ImportError::FailedDependency("gone".into()),
        ])
    );
    assert_eq!(names(&project), vec!["A", "B"]);
}

#[test]
fn import_reports_a_missing_dependency_beside_an_unknown_name() {
    let source = project_of(vec![series("A", &["gone"])]);
    let mut project = Project::new();
    assert_eq!(
        project.import(&["A", "Z"], &source),
        Err(vec![
            ImportError::NoSuchSymbol("Z".into()),
            ImportError::FailedDependency("gone".into()),
        ])
    );
}

#[test]
fn import_does_not_overwrite_what_the_destination_holds() {
    let source = project_of(vec![series("A", &["B"]), series("B", &[])]);
    let mut project = project_of(vec![language("A")]);
    assert_eq!(
        project.import(&["A"], &source),
        Err(vec![ImportError::NameCollision(language("A"))])
    );
    assert_eq!(project.get("A"), Some(&language("A")));
    // The dependency was free and came over all the same.
    assert_eq!(names(&project), vec!["A", "B"]);
    assert_eq!(project.get("B"), Some(&series("B", &[])));
}

#[test]
fn import_reports_the_three_kinds_of_error_in_order() {
    let source = project_of(vec![series("A", &["B", "gone"]), series("B", &[])]);
    let mut project = project_of(vec![language("B")]);
    assert_eq!(
        project.import(&["nope", "A"], &source),
        Err(vec![
            ImportError::NoSuchSymbol("nope".into()),
            ImportError::FailedDependency("gone".into()),
            ImportError::NameCollision(language("B")),
        ])
    );
    assert_eq!(names(&project), vec!["B", "A"]);
}

#[test]
fn import_takes_a_name_once_however_often_it_is_met() {
    let source = project_of(vec![
        series("A", &["C", "B"]),
        series("B", &["C", "A"]),
        series("C", &["A"]),
    ]);
    let mut project = Project::new();
    assert_eq!(project.import(&["A", "A", "B"], &source), Ok(()));
    assert_eq!(names(&project), vec!["B", "A", "C"]);
}

#[test]
fn import_of_no_name_changes_nothing() {
    let source = project_of(vec![series("A", &[])]);
    let mut project = project_of(vec![series("B", &[])]);
    assert_eq!(project.import(&[], &source), Ok(()));
    assert_eq!(names(&project), vec!["B"]);
}

#[test]
fn import_all_from_copies_a_self_contained_project() {
    let source = project_of(vec![
        series("A", &["B", "C"]),
        series("B", &[]),
        series("C", &["B"]),
        language("L"),
    ]);
    let mut project = Project::new();
    assert_eq!(project.import_all_from(&source), Ok(()));
    assert_eq!(project.symbols.len(), 4);
    for symbol in &source.symbols {
        assert_eq!(project.get(&symbol.name), Some(symbol));
    }
    for symbol in &project.symbols {
        assert_eq!(source.get(&symbol.name), Some(symbol));
    }
}

#[test]
fn import_all_from_reports_what_the_source_lacks() {
    let source = project_of(vec![series("A", &["gone"])]);
    let mut project = Project::new();
    assert_eq!(
        project.import_all_from(&source),
        Err(vec![ImportError::FailedDependency("gone".into())])
    );
    assert_eq!(names(&project), vec!["A"]);
}

#[test]
fn import_leaves_the_lists_of_the_destination_alone() {
    let source = project_of(vec![language("L")]);
    let mut project = Project::new();
    project.milestones.push(7);
    assert_eq!(project.import_all_from(&source), Ok(()));
    assert_eq!(project.milestones, vec![7]);
    assert!(project.languages.is_empty());
    assert!(source.languages.is_empty());
}

#[test]
fn find_gives_the_place_of_the_first_symbol_of_a_name() {
    let symbols = vec![series("A", &[]), series("B", &[]), language("B")];
    assert_eq!(find(&symbols, &"A".to_string()), Some(0));
    assert_eq!(find(&symbols, &"B".to_string()), Some(1));
    assert_eq!(find(&symbols, &"C".to_string()), None);
    assert_eq!(find(&vec![], &"A".to_string()), None);
}
