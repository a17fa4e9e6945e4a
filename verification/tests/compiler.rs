use chronlang_engine::compiler::{
    compile, compile_ast, compile_ast_within, compile_milestone, compile_within, compile_word,
    imports_of, parse_failure, CompilationError, CompilerState,
};
use chronlang_engine::language::Language;
use chronlang_engine::project::{Entity, Location, Project, Symbol};
use chronlang_engine::resolver::MockResolver;
use chronlang_engine::tag::Tag;
use chronlang_parser::ast::{Category, Feature, Series, Stmt, Time, TraitMember};

fn no_modules() -> MockResolver {
    MockResolver::new(vec![])
}

fn one_module(name: &str, text: &str) -> MockResolver {
    MockResolver::new(vec![(name.to_string(), text.to_string())])
}

fn names(project: &Project) -> Vec<String> {
    project.symbols.iter().map(|s| s.name.clone()).collect()
}

#[test]
fn it_works() {
    let resolver = MockResolver::new(vec![
        ("@core/ipa".into(), "
            trait Manner { stop, flap | tap, fricative, approximant }
            trait Place { bilabial, alveolar, palatal, velar }
            trait Voice { voiced, unvoiced }

            class C encodes (Voice Place Manner) {
                p = voiceless bilabial stop,
                b = voiced bilabial stop,
            }".into()),
    ]);

    let res = compile(
        "
            import * from @core/ipa
            
            series F = { i, e, ε, æ }

            class X encodes (Place Manner) {
                ℂ = velar trill,
                ℤ = labiodental lateral_fricative,
            }

            lang OEng : Old English
            lang AmEng < OEng : American English
            lang RP < OEng : Received Pronunciation
            
            @ 1000, OEng
            
            - water /ˈwæ.ter/ {
                noun. liquid that forms the seas, lakes, rivers, and rain
                verb. pour or sprinkle water over a plant or area
            }
            
            @ 1940, AmEng
            
            $ [C+alveolar+stop] > [+flap] / V_V : Alveolar stops lenite to flaps intervocallically
            ",
        "demo",
        &resolver,
    );

    assert!(res.ok);
    assert_eq!(res.errors, vec![]);
    assert_eq!(res.warnings, vec![]);
}

#[test]
fn it_raises_name_collision_errors() {
    let resolver = MockResolver::new(vec![
        ("consonants".into(), "
            trait Manner { stop, flap | tap, fricative, approximant }
            trait Place { bilabial, alveolar, palatal, velar }
            trait Voice { voiced, unvoiced }

            class C encodes (Voice Place Manner) {
                p = voiceless bilabial stop,
                b = voiced bilabial stop,
            }".into()),
    ]);

    let res = compile("
            import (C) from consonants

            series C = { p, b }

            class B encodes (Voice Place Manner) {
                b = voiceless bilabial stop
            }

            lang B: b-lang
        ", "demo", &resolver);

    let expected_errors = vec![
        CompilationError::NameCollision(
            60..61,
            Symbol {
                name: "C".into(),
                loc: Location { source_name: "consonants".into(), span: 192..331 },
                value: Entity::Class {
                    label: (198..199, "C".into()),
                    encodes: vec![
                        (209..214, "Voice".into()),
                        (215..220, "Place".into()),
                        (221..227, "Manner".into()),
                    ],
                    annotates: vec![],
                    phonemes: vec!["p".into(), "b".into()],
                },
                dependencies: vec!["p".into(), "b".into(), "Voice".into(), "Place".into(), "Manner".into()],
            },
        ),
        CompilationError::NameCollision(
            141..142,
            Symbol {
                name: "b".into(),
                loc: Location { source_name: "consonants".into(), span: 292..316 },
                value: Entity::Phoneme {
                    class: (198..199, "C".into()),
                    label: (292..293, "b".into()),
                    traits: vec![
                        (296..302, "voiced".into()),
                        (303..311, "bilabial".into()),
                        (312..316, "stop".into()),
                    ],
                },
                dependencies: vec!["C".into()],
            },
        ),
        CompilationError::NameCollision(
            201..202,
            Symbol {
                name: "B".into(),
                loc: Location { source_name: "demo".into(), span: 86..182 },
                value: Entity::Class {
                    label: (92..93, "B".into()),
                    encodes: vec![
                        (103..108, "Voice".into()),
                        (109..114, "Place".into()),
                        (115..121, "Manner".into()),
                    ],
                    annotates: vec![],
                    phonemes: vec!["b".into()],
                },
                dependencies: vec!["b".into(), "Voice".into(), "Place".into(), "Manner".into()],
            },
        ),
    ];

    assert_eq!(res.errors, expected_errors);
}

#[test]
fn an_empty_source_compiles_to_an_empty_project() {
    for source in ["", "\n\n", "   \n  "] {
        let res = compile(source, "demo", &no_modules());
        assert!(res.ok);
        assert_eq!(res.project, Project::new());
        assert_eq!(res.errors, vec![]);
        assert_eq!(res.warnings, vec![]);
    }
}

#[test]
fn an_empty_stream_compiles_to_an_empty_project() {
    let res = compile_ast(vec![], "demo", &no_modules());
    assert!(res.ok);
    assert_eq!(res.project, Project::new());
    assert_eq!(res.errors, vec![]);
    assert_eq!(res.warnings, vec![]);
}

#[test]
fn a_source_that_does_not_parse_yields_the_parse_errors_alone() {
    let res = compile("lang OEng\nlang\n", "demo", &no_modules());
    assert!(!res.ok);
    assert_eq!(res.project, Project::new());
    assert_eq!(res.warnings, vec![]);
    assert_eq!(res.errors.len(), 1);
    match &res.errors[0] {
        CompilationError::ParseErrors(errors) => assert!(!errors.is_empty()),
        other => panic!("not a parse error: {:?}", other),
    }
}

#[test]
fn a_word_before_any_language_has_no_language() {
    let res = compile("- water /wa.ter/ wet\n", "demo", &no_modules());
    assert!(!res.ok);
    assert_eq!(res.errors, vec![CompilationError::NoLanguage(0..20)]);
    assert_eq!(res.project, Project::new());
}

#[test]
fn a_sound_change_before_any_language_has_no_language() {
    let res = compile("lang OEng\n@ 1000\n$ a > b\n", "demo", &no_modules());
    assert!(!res.ok);
    // Declaring a language does not set it, and neither does a time.
    assert_eq!(
        res.errors,
        vec![CompilationError::FirstTagNoLanguage(10..16), CompilationError::NoLanguage(17..24)]
    );
    assert!(res.project.sound_changes.is_empty());
    assert_eq!(res.project.milestones, vec![1000]);
    assert!(res.project.tags.is_empty());
}

#[test]
fn a_first_milestone_without_a_language_is_reported() {
    let res = compile("@ 1000\n", "demo", &no_modules());
    assert!(!res.ok);
    assert_eq!(res.errors, vec![CompilationError::FirstTagNoLanguage(0..6)]);
    assert_eq!(res.project.milestones, vec![1000]);
    assert!(res.project.tags.is_empty());
}

#[test]
fn a_later_milestone_without_a_language_is_in_order() {
    let res = compile("@ OEng\n@ 1000\n@ 1100-1200\n", "demo", &no_modules());
    assert!(res.ok);
    assert_eq!(res.errors, vec![]);
    assert_eq!(res.project.milestones, vec![1000, 1200]);
    assert_eq!(
        res.project.tags,
        vec![
            Tag::new(&(2..6, "OEng".to_string()), &(0..0, Time::Instant(0))),
            Tag::new(&(2..6, "OEng".to_string()), &(9..13, Time::Instant(1000))),
            Tag::new(&(2..6, "OEng".to_string()), &(16..25, Time::Range(1100, 1200))),
        ]
    );
}

#[test]
fn a_milestone_that_sets_nothing_is_reported_only_at_first() {
    let nothing = Stmt::Milestone { time: None, language: None };
    let language = Stmt::Milestone { time: None, language: Some((3..7, "OEng".to_string())) };
    let res = compile_ast(
        vec![(0..1, nothing.clone()), (2..8, language), (9..10, nothing)],
        "demo",
        &no_modules(),
    );
    assert_eq!(res.errors, vec![CompilationError::FirstTagNoLanguage(0..1)]);
    assert!(res.project.milestones.is_empty());
    assert_eq!(res.project.tags.len(), 2);
}

#[test]
fn a_language_is_recorded_with_its_parent_as_dependency() {
    let res = compile("lang OEng : Old English\nlang AmEng < OEng\n", "demo", &no_modules());
    assert!(res.ok);
    let old = Language::new(
        &(5..9, "OEng".to_string()),
        &Some((12..23, "Old English".to_string())),
        &None,
    );
    let american =
        Language::new(&(29..34, "AmEng".to_string()), &None, &Some((37..41, "OEng".to_string())));
    assert_eq!(res.project.languages, vec![old.clone(), american.clone()]);
    assert_eq!(
        res.project.symbols,
        vec![
            Symbol {
                name: "OEng".into(),
                loc: Location { source_name: "demo".into(), span: 0..23 },
                value: Entity::Language(old),
                dependencies: vec![],
            },
            Symbol {
                name: "AmEng".into(),
                loc: Location { source_name: "demo".into(), span: 24..41 },
                value: Entity::Language(american),
                dependencies: vec!["OEng".into()],
            },
        ]
    );
}

#[test]
fn two_definitions_of_one_name_collide_whatever_they_define() {
    let res = compile("series C = { p, b }\nlang C\nlang C\n", "demo", &no_modules());
    assert!(!res.ok);
    let first = Symbol {
        name: "C".into(),
        loc: Location { source_name: "demo".into(), span: 0..19 },
        value: Entity::Series {
            label: (7..8, "C".into()),
            series: (11..19, Series::List(vec![(13..14, "p".into()), (16..17, "b".into())])),
        },
        dependencies: vec!["p".into(), "b".into()],
    };
    assert_eq!(
        res.errors,
        vec![
            CompilationError::NameCollision(25..26, first.clone()),
            CompilationError::NameCollision(32..33, first.clone()),
        ]
    );
    assert_eq!(res.project.symbols, vec![first]);
    // A language that was turned away is not recorded.
    assert!(res.project.languages.is_empty());
}

#[test]
fn a_word_that_collides_is_not_recorded() {
    let res = compile(
        "@ OEng\nlang water\n- water /wa.ter/ wet\n- fire /fi.re/ hot\n",
        "demo",
        &no_modules(),
    );
    assert_eq!(res.errors.len(), 1);
    match &res.errors[0] {
        CompilationError::NameCollision(span, held) => {
            assert_eq!(*span, 20..25);
            assert_eq!(held.name, "water");
            assert!(matches!(held.value, Entity::Language(_)));
        }
        other => panic!("not a collision: {:?}", other),
    }
    assert_eq!(res.project.words.len(), 1);
    assert_eq!(res.project.words[0].gloss, "fire");
    assert_eq!(res.project.words[0].pronunciation, vec!["fi", "re"]);
    assert_eq!(names(&res.project), vec!["water", "fire"]);
    assert_eq!(res.project.get("fire").unwrap().dependencies, Vec::<String>::new());
}

#[test]
fn a_class_reports_the_collisions_of_its_label_and_of_its_phonemes() {
    let res = compile(
        "series C = { x }\nlang b\nclass C encodes (Voice) {\n  a = voiced,\n  b = voiced\n}\n",
        "demo",
        &no_modules(),
    );
    assert_eq!(res.errors.len(), 2);
    match &res.errors[0] {
        CompilationError::NameCollision(span, held) => {
            assert_eq!(*span, 30..31);
            assert!(matches!(held.value, Entity::Series { .. }));
        }
        other => panic!("not a collision: {:?}", other),
    }
    match &res.errors[1] {
        CompilationError::NameCollision(span, held) => {
            assert_eq!(*span, 66..67);
            assert!(matches!(held.value, Entity::Language(_)));
        }
        other => panic!("not a collision: {:?}", other),
    }
    // The phoneme whose name was free is registered all the same.
    assert_eq!(names(&res.project), vec!["C", "b", "a"]);
    assert_eq!(res.project.get("a").unwrap().dependencies, vec!["C"]);
}

#[test]
fn a_class_depends_on_its_phonemes_and_on_what_it_encodes_and_annotates() {
    let res = compile(
        "class C encodes (Voice Place) annotates (Length) {\n  p = unvoiced,\n  b = voiced\n}\n",
        "demo",
        &no_modules(),
    );
    assert!(res.ok);
    assert_eq!(names(&res.project), vec!["C", "p", "b"]);
    assert_eq!(
        res.project.get("C").unwrap().dependencies,
        vec!["p", "b", "Voice", "Place", "Length"]
    );
    match &res.project.get("C").unwrap().value {
        Entity::Class { label, encodes, annotates, phonemes } => {
            assert_eq!(label.1, "C");
            assert_eq!(encodes.iter().map(|e| e.1.as_str()).collect::<Vec<_>>(), vec!["Voice", "Place"]);
            assert_eq!(annotates.iter().map(|e| e.1.as_str()).collect::<Vec<_>>(), vec!["Length"]);
            assert_eq!(phonemes, &vec!["p".to_string(), "b".to_string()]);
        }
        other => panic!("not a class: {:?}", other),
    }
    match &res.project.get("b").unwrap().value {
        Entity::Phoneme { class, label, traits } => {
            assert_eq!(class.1, "C");
            assert_eq!(label.1, "b");
            assert_eq!(traits.iter().map(|e| e.1.as_str()).collect::<Vec<_>>(), vec!["voiced"]);
        }
        other => panic!("not a phoneme: {:?}", other),
    }
}

#[test]
fn a_trait_member_goes_by_its_first_label() {
    let res = compile("trait Manner { stop, default flap | tap | touch }\n", "demo", &no_modules());
    assert!(res.ok);
    assert_eq!(names(&res.project), vec!["Manner", "stop", "flap"]);
    assert_eq!(res.project.get("Manner").unwrap().dependencies, vec!["stop", "flap"]);
    assert_eq!(res.project.get("flap").unwrap().dependencies, vec!["Manner"]);
    match &res.project.get("flap").unwrap().value {
        Entity::TraitMember { label, aliases, default, notation } => {
            assert_eq!(label.1, "flap");
            assert_eq!(aliases.iter().map(|a| a.1.as_str()).collect::<Vec<_>>(), vec!["tap", "touch"]);
            assert!(*default);
            assert_eq!(*notation, None);
        }
        other => panic!("not a trait member: {:?}", other),
    }
    match &res.project.get("Manner").unwrap().value {
        Entity::Trait { label, members } => {
            assert_eq!(label.1, "Manner");
            assert_eq!(members.len(), 2);
            assert_eq!(members[1].labels.len(), 3);
        }
        other => panic!("not a trait: {:?}", other),
    }
}

#[test]
fn trait_members_collide_one_by_one() {
    let member = |name: &str| {
        (
            1..2,
            TraitMember { labels: vec![(3..4, name.to_string())], notation: None, default: false },
        )
    };
    let declared = Stmt::Trait {
        label: (0..1, "T".to_string()),
        members: vec![member("a"), member("T"), member("a"), member("b")],
    };
    let res = compile_ast(vec![(0..9, declared)], "demo", &no_modules());
    assert_eq!(res.errors.len(), 2);
    assert!(matches!(&res.errors[0],
        CompilationError::NameCollision(span, held) if *span == (3..4) && held.name == "T"));
    assert!(matches!(&res.errors[1],
        CompilationError::NameCollision(span, held) if *span == (3..4) && held.name == "a"));
    assert_eq!(names(&res.project), vec!["T", "a", "b"]);
}

#[test]
fn a_series_depends_on_what_it_lists_or_on_its_base_class() {
    let category = |base_class| {
        Stmt::Series {
            label: (0..1, "S".to_string()),
            series: (
                2..3,
                Series::Category(Category {
                    base_class,
                    features: vec![(4..5, Feature::Positive("voiced".to_string()))],
                }),
            ),
        }
    };
    let res = compile_ast(vec![(0..9, category(Some((3..4, 'C'))))], "demo", &no_modules());
    assert_eq!(res.project.get("S").unwrap().dependencies, vec!["C"]);
    let res = compile_ast(vec![(0..9, category(None))], "demo", &no_modules());
    assert_eq!(res.project.get("S").unwrap().dependencies, Vec::<String>::new());
    let res = compile("series F = { i, e }\n", "demo", &no_modules());
    assert_eq!(res.project.get("F").unwrap().dependencies, vec!["i", "e"]);
}

#[test]
fn the_demo_project_holds_what_the_source_says() {
    let resolver = one_module(
        "@core/ipa",
        "
            trait Manner { stop, flap | tap, fricative, approximant }
            trait Place { bilabial, alveolar, palatal, velar }
            trait Voice { voiced, unvoiced }

            class C encodes (Voice Place Manner) {
                p = voiceless bilabial stop,
                b = voiced bilabial stop,
            }",
    );
    let res = compile(
        "
            import * from @core/ipa

            series F = { i, e, ε, æ }

            class X encodes (Place Manner) {
                ℂ = velar trill,
                ℤ = labiodental lateral_fricative,
            }

            lang OEng : Old English
            lang AmEng < OEng : American English
            lang RP < OEng : Received Pronunciation

            @ 1000, OEng

            - water /ˈwæ.ter/ {
                noun. liquid that forms the seas, lakes, rivers, and rain
                verb. pour or sprinkle water over a plant or area
            }

            @ 1940, AmEng

            $ [C+alveolar+stop] > [+flap] / V_V : Alveolar stops lenite to flaps intervocallically
            ",
        "demo",
        &resolver,
    );
    assert!(res.ok);
    assert_eq!(res.errors, vec![]);
    assert_eq!(res.warnings, vec![]);

    assert_eq!(res.project.milestones, vec![1000, 1940]);

    assert_eq!(res.project.words.len(), 1);
    let water = &res.project.words[0];
    assert_eq!(water.gloss, "water");
    assert_eq!(water.pronunciation, vec!["ˈwæ", "ter"]);
    assert_eq!(water.definitions.len(), 2);
    assert_eq!(water.definitions[0].pos, Some("noun".to_string()));
    assert_eq!(water.definitions[1].pos, Some("verb".to_string()));
    assert_eq!(water.tag.language, "OEng");
    assert_eq!(water.tag.time, Time::Instant(1000));

    assert_eq!(res.project.sound_changes.len(), 1);
    let change = &res.project.sound_changes[0];
    assert_eq!(change.source_name, "demo");
    assert_eq!(change.tag.language, "AmEng");
    assert_eq!(change.tag.time, Time::Instant(1940));
    assert_eq!(
        change.description.as_ref().map(|d| d.1.as_str()),
        Some("Alveolar stops lenite to flaps intervocallically")
    );

    assert_eq!(res.project.languages.len(), 3);
    assert_eq!(res.project.tags.len(), 2);
    assert_eq!(res.project.tags[0].language, "OEng");
    assert_eq!(res.project.tags[1].language, "AmEng");

    let mut found = names(&res.project);
    found.sort();
    let mut expected = vec![
        "Manner", "stop", "flap", "fricative", "approximant", "Place", "bilabial", "alveolar",
        "palatal", "velar", "Voice", "voiced", "unvoiced", "C", "p", "b", "F", "X", "ℂ", "ℤ",
        "OEng", "AmEng", "RP", "water",
    ];
    expected.sort();
    assert_eq!(found, expected);
    assert_eq!(res.project.get("C").unwrap().loc.source_name, "@core/ipa");
    assert_eq!(res.project.get("X").unwrap().loc.source_name, "demo");
}

#[test]
fn an_import_that_cannot_be_resolved_is_a_bad_import() {
    let res = compile("import * from missing/module\nlang OEng\n", "demo", &no_modules());
    assert_eq!(
        res.errors,
        vec![CompilationError::BadImport(
            0..28,
            "Failed to resolve path `missing/module`.".into()
        )]
    );
    // The statements after it are compiled all the same.
    assert_eq!(names(&res.project), vec!["OEng"]);
}

#[test]
fn an_imported_name_that_the_module_lacks_is_reported_at_the_import() {
    let res = compile("lang X\nimport (A, B) from m\n", "demo", &one_module("m", "lang A\n"));
    assert_eq!(res.errors, vec![CompilationError::ImportedNameNotFound(7..27, "B".into())]);
    assert_eq!(names(&res.project), vec!["X", "A"]);
    // What is imported is a symbol, not a language of this source.
    assert_eq!(res.project.languages.len(), 1);
}

#[test]
fn an_import_reports_a_dependency_that_the_module_lacks() {
    let module = "class C encodes (Voice) {\n  p = voiced\n}\n";
    let res = compile("import (C, Z) from m\n", "demo", &one_module("m", module));
    assert_eq!(
        res.errors,
        vec![
            CompilationError::ImportDependencyNotFound("Voice".into()),
            CompilationError::ImportedNameNotFound(0..20, "Z".into()),
        ]
    );
    assert_eq!(names(&res.project), vec!["C", "p"]);
}

#[test]
fn an_import_does_not_overwrite_a_name_that_is_taken() {
    let module = "series C = [+voiced]\nlang D\n";
    let res = compile("lang C\nimport (C, D) from m\n", "demo", &one_module("m", module));
    assert_eq!(res.errors.len(), 1);
    match &res.errors[0] {
        CompilationError::NameCollision(span, held) => {
            assert_eq!(*span, 7..27);
            assert_eq!(held.loc, Location { source_name: "demo".into(), span: 0..6 });
            assert!(matches!(held.value, Entity::Language(_)));
        }
        other => panic!("not a collision: {:?}", other),
    }
    assert!(matches!(res.project.get("C").unwrap().value, Entity::Language(_)));
    assert_eq!(names(&res.project), vec!["C", "D"]);
}

#[test]
fn an_import_brings_the_base_class_of_a_series() {
    let module = "trait Voice { voiced, unvoiced }\n\
                  class C encodes (Voice) {\n  p = unvoiced,\n  b = voiced\n}\n\
                  series S = [C+voiced]\nlang L\n";
    let res = compile("import (S) from m\n", "demo", &one_module("m", module));
    assert!(res.ok);
    assert_eq!(res.errors, vec![]);
    let mut found = names(&res.project);
    found.sort();
    assert_eq!(found, vec!["C", "S", "Voice", "b", "p", "unvoiced", "voiced"]);
    assert_eq!(res.project.get("S").unwrap().dependencies, vec!["C"]);
}

#[test]
fn what_an_imported_module_reports_is_passed_on_as_it_is() {
    let res = compile(
        "lang A\nimport * from m\n",
        "demo",
        &one_module("m", "- water /wa.ter/ wet\nlang A\nlang A\n"),
    );
    assert_eq!(res.errors.len(), 3);
    assert_eq!(res.errors[0], CompilationError::NoLanguage(0..20));
    // A collision inside the module, at the module's own span.
    match &res.errors[1] {
        CompilationError::NameCollision(span, held) => {
            assert_eq!(*span, 33..34);
            assert_eq!(held.loc, Location { source_name: "m".into(), span: 21..27 });
        }
        other => panic!("not a collision: {:?}", other),
    }
    // A collision of the import, at the span of the import statement.
    match &res.errors[2] {
        CompilationError::NameCollision(span, held) => {
            assert_eq!(*span, 7..22);
            assert_eq!(held.loc, Location { source_name: "demo".into(), span: 0..6 });
        }
        other => panic!("not a collision: {:?}", other),
    }
}

#[test]
fn a_module_that_does_not_parse_is_reported_and_gives_nothing() {
    let res = compile("import * from m\nlang A\n", "demo", &one_module("m", "lang\n"));
    assert_eq!(res.errors.len(), 1);
    assert!(matches!(res.errors[0], CompilationError::ParseErrors(_)));
    assert_eq!(names(&res.project), vec!["A"]);
}

#[test]
fn a_module_that_imports_itself_is_not_compiled_again() {
    let resolver = MockResolver::new(vec![
        ("a".to_string(), "lang A\nimport * from b\n".to_string()),
        ("b".to_string(), "lang B\nimport (A) from a\n".to_string()),
    ]);
    let res = compile("import * from a\n", "demo", &resolver);
    assert_eq!(
        res.errors,
        vec![CompilationError::BadImport(
            7..24,
            "Module `a` is imported from within itself.".into()
        )]
    );
    assert_eq!(names(&res.project), vec!["B", "A"]);
}

#[test]
fn a_source_may_import_a_module_of_its_own_name() {
    let res = compile("import * from demo\n", "demo", &one_module("demo", "lang A\n"));
    assert!(res.ok);
    assert_eq!(names(&res.project), vec!["A"]);
}

#[test]
fn imports_are_followed_however_deep_they_lie() {
    let depth: usize = 200;
    let module = |i: usize| {
        if i + 1 < depth {
            (format!("m{}", i), format!("lang L{}\nimport * from m{}\n", i, i + 1))
        } else {
            (format!("m{}", i), format!("lang L{}\nimport (Gone) from m0\n", i))
        }
    };
    let resolver = MockResolver::new((0..depth).map(module).collect());
    let res = compile("import * from m0\n", "demo", &resolver);
    // Only the innermost module finds a module that is being compiled
    // already; every module on the way to it is compiled and imported.
    assert_eq!(
        res.errors,
        vec![CompilationError::BadImport(
            10..31,
            "Module `m0` is imported from within itself.".into()
        )]
    );
    assert_eq!(res.project.symbols.len(), depth);
    for i in 0..depth {
        let symbol = res.project.get(&format!("L{}", i)).unwrap();
        assert_eq!(symbol.loc.source_name, format!("m{}", i));
    }
}

#[test]
fn a_parse_failure_holds_the_errors_with_their_messages() {
    let errors = vec![(3..4, "found end of input".to_string()), (7..9, "other".to_string())];
    let res = parse_failure(errors.clone());
    assert!(!res.ok);
    assert_eq!(res.errors, vec![CompilationError::ParseErrors(errors)]);
    assert_eq!(res.project, Project::new());
    assert_eq!(res.warnings, vec![]);
}

#[test]
fn the_messages_of_parse_errors_are_the_parsers() {
    let res = compile("lang\n", "demo", &no_modules());
    match &res.errors[..] {
        [CompilationError::ParseErrors(errors)] => {
            assert!(!errors.is_empty());
            for (_, message) in errors {
                assert!(message.starts_with("found "));
            }
        }
        other => panic!("not a parse failure: {:?}", other),
    }
}

#[test]
fn errors_can_be_copied() {
    let res = compile("lang C\nlang C\n@ 5\n- w /w/ x\nimport * from m\n", "demo", &no_modules());
    assert_eq!(res.errors.len(), 4);
    for error in &res.errors {
        assert_eq!(&error.clone(), error);
    }
}

#[test]
fn the_imports_of_a_source_are_listed_in_order() {
    let source = "import * from @core/ipa\nlang A\nimport (B, C) from lib/b\nimport * from ./up\n";
    assert_eq!(
        imports_of(source),
        vec![vec!["@core", "ipa"], vec!["lib", "b"], vec![".", "up"]]
    );
    assert_eq!(imports_of("lang A\n"), Vec::<Vec<String>>::new());
    assert_eq!(imports_of("import from\n"), Vec::<Vec<String>>::new());
}

#[test]
fn a_compilation_knows_the_modules_that_led_to_it() {
    let resolver = one_module("m", "lang A\n");
    let chain = vec!["m".to_string()];
    let res = compile_within("import * from m\n", "inner", &resolver, &chain);
    assert_eq!(
        res.errors,
        vec![CompilationError::BadImport(
            0..15,
            "Module `m` is imported from within itself.".into()
        )]
    );
    assert!(res.project.symbols.is_empty());

    let other = vec!["n".to_string()];
    let res = compile_within("import * from m\n", "inner", &resolver, &other);
    assert!(res.ok);
    assert_eq!(names(&res.project), vec!["A"]);

    let import = Stmt::Import {
        path: vec![(14..15, "m".to_string())],
        absolute: false,
        names: vec![(7..8, "*".to_string())],
    };
    let res = compile_ast_within(vec![(0..15, import)], "inner", &resolver, &chain);
    assert_eq!(res.errors.len(), 1);
}

#[test]
fn statements_can_be_taken_one_by_one() {
    let mut project = Project::new();
    let mut state = CompilerState::new("demo");
    assert_eq!(state.current_language, None);
    assert_eq!(state.current_time, (0..0, Time::Instant(0)));

    let gloss = (2..7, "water".to_string());
    let syllables = (8..16, vec!["wa".to_string(), "ter".to_string()]);
    compile_word(&mut project, &mut state, &(0..20), gloss.clone(), syllables.clone(), vec![]);
    assert_eq!(state.errors, vec![CompilationError::NoLanguage(0..20)]);
    assert_eq!(project, Project::new());

    let time = Some((23..27, Time::Instant(1000)));
    compile_milestone(&mut project, &mut state, &(21..27), time.clone(), None);
    assert_eq!(
        state.errors,
        vec![CompilationError::NoLanguage(0..20), CompilationError::FirstTagNoLanguage(21..27)]
    );
    assert_eq!(project.milestones, vec![1000]);
    assert!(project.tags.is_empty());
    assert_eq!(state.current_language, None);
    assert_eq!(state.current_time, (23..27, Time::Instant(1000)));

    let language = Some((30..34, "OEng".to_string()));
    compile_milestone(&mut project, &mut state, &(28..34), None, language.clone());
    compile_milestone(&mut project, &mut state, &(35..41), Some((37..41, Time::Instant(1100))), None);
    assert_eq!(state.errors.len(), 2);
    assert_eq!(
        project.tags,
        vec![
            Tag::new(&(30..34, "OEng".to_string()), &(23..27, Time::Instant(1000))),
            Tag::new(&(30..34, "OEng".to_string()), &(37..41, Time::Instant(1100))),
        ]
    );

    compile_word(&mut project, &mut state, &(42..62), gloss, syllables, vec![]);
    assert_eq!(state.errors.len(), 2);
    assert_eq!(project.words.len(), 1);
    assert_eq!(project.words[0].tag, project.tags[1]);
    assert_eq!(names(&project), vec!["water"]);
    assert!(state.warnings.is_empty());
}
