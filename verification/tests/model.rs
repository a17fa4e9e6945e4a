use chronlang_engine::language::Language;
use chronlang_engine::tag::{instant, Tag};
use chronlang_engine::word::{Word, Definition};
use chronlang_parser::ast::Time;

#[test]
fn a_tag_holds_the_language_and_the_time_with_their_spans() {
    let tag = Tag::new(&(3..7, "OEng".to_string()), &(0..2, Time::Instant(1000)));
    assert_eq!(
        tag,
        Tag {
            language: "OEng".into(),
            lang_set_span: 3..7,
            time: Time::Instant(1000),
            time_set_span: 0..2,
        }
    );
    assert_eq!(tag.clone(), tag);
}

#[test]
fn a_time_stands_for_its_point_or_for_its_end() {
    assert_eq!(instant(&Time::Instant(-5)), -5);
    assert_eq!(instant(&Time::Range(100, 250)), 250);
}

#[test]
fn a_language_without_a_name_goes_by_its_identifier() {
    let id = (5..9, "OEng".to_string());
    let parent = Some((12..15, "PGm".to_string()));
    let unnamed = Language::new(&id, &None, &parent);
    // The span of the name is not kept: only its text.
    assert_eq!(unnamed, Language::new(&id, &Some((0..0, "OEng".to_string())), &parent));
    assert_ne!(unnamed, Language::new(&id, &Some((0..0, "Old English".to_string())), &parent));
    assert_ne!(unnamed, Language::new(&id, &None, &None));
    assert_ne!(unnamed, Language::new(&id, &None, &Some((0..0, "PGm".to_string()))));
    assert_eq!(unnamed.clone(), unnamed);
}

#[test]
fn a_definition_keeps_the_part_of_speech_where_there_is_one() {
    assert_eq!(
        Definition::new(&Some((1..5, "noun".to_string())), &(7..12, "water".to_string())),
        Definition {
            pos: Some("noun".into()),
            pos_span: Some(1..5),
            definition: "water".into(),
            definition_span: 7..12,
        }
    );
    assert_eq!(
        Definition::new(&None, &(7..12, "water".to_string())),
        Definition {
            pos: None,
            pos_span: None,
            definition: "water".into(),
            definition_span: 7..12,
        }
    );
}

#[test]
fn a_word_holds_copies_of_what_it_was_made_from() {
    let definitions = vec![Definition::new(&None, &(20..25, "water".to_string()))];
    let tag = Tag::new(&(3..7, "OEng".to_string()), &(0..2, Time::Range(900, 1000)));
    let word = Word::new(
        &(10..15, "water".to_string()),
        &(16..19, vec!["wae".to_string(), "ter".to_string()]),
        &definitions,
        &tag,
    );
    assert_eq!(
        word,
        Word {
            gloss: "water".into(),
            gloss_span: 10..15,
            pronunciation: vec!["wae".into(), "ter".into()],
            pronunciation_span: 16..19,
            definitions: definitions.clone(),
            tag: tag.clone(),
        }
    );
    assert_eq!(word.clone(), word);
}
