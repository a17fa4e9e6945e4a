use chronlang_engine::resolver::{
    find_text, join_segments, FileSystemResolver, MockResolver, ResolutionError, Resolve,
};

#[test]
fn file_system_resolver_resolves_an_existing_path() {
    // The file is there once its text has been handed over.
    let mut resolver = FileSystemResolver::new("./example");
    resolver.load("./example/demo.lang", "lang OEng : Old English\n");

    assert!(resolver.resolve(&["demo"]).is_ok());
}

#[test]
fn file_system_resolver_rejects_an_invalid_path() {
    let resolver = FileSystemResolver::new("./example");

    assert_eq!(
        resolver.resolve(&["invalid"]),
        Err(ResolutionError::PathNotFound("./example/invalid.lang".into())),
    );
}

#[test]
fn file_system_resolver_answers_with_the_text_and_the_file_name() {
    let mut resolver = FileSystemResolver::new("./example");
    resolver.load("./example/demo.lang", "old");
    resolver.load("./example/other.lang", "other");
    resolver.load("./example/demo.lang", "new");

    assert_eq!(
        resolver.resolve(&["demo"]),
        Ok(("new".to_string(), "./example/demo.lang".to_string()))
    );
    assert_eq!(
        resolver.resolve(&["other"]),
        Ok(("other".to_string(), "./example/other.lang".to_string()))
    );
}

#[test]
fn file_system_resolver_locates_nested_modules() {
    let resolver = FileSystemResolver::new("lib");
    assert_eq!(resolver.locate(&["phonology", "vowels"]), Ok("lib/phonology/vowels.lang".into()));
    assert_eq!(resolver.locate(&["vowels"]), Ok("lib/vowels.lang".into()));
    // The extension is set as std sets it: a path that ends in `..` has no
    // file name to give one to.
    assert_eq!(resolver.locate(&[".."]), Ok("lib/..".into()));
    let at_root = FileSystemResolver::new("");
    assert_eq!(at_root.locate(&["vowels"]), Ok("vowels.lang".into()));
}

#[test]
fn file_system_resolver_does_not_serve_remote_modules() {
    let mut resolver = FileSystemResolver::new("./example");
    resolver.load("./example/@core/ipa.lang", "trait T { a }");
    let refusal = ResolutionError::InvalidPathForResolver(
        "FileSystemResolver cannot resolve remote imports.".into(),
    );
    assert_eq!(resolver.resolve(&["@core", "ipa"]), Err(refusal.clone()));
    assert_eq!(resolver.locate(&["@core"]), Err(refusal));
    // Only the first segment decides.
    assert_eq!(resolver.locate(&["a", "@b"]), Ok("./example/a/@b.lang".into()));
    // A path that starts at the root is taken from there, as std joins paths.
    assert_eq!(resolver.locate(&["", "@b"]), Ok("/@b.lang".into()));
}

#[test]
fn mock_resolver_answers_under_the_joined_path() {
    let resolver = MockResolver::new(vec![
        ("@core/ipa".into(), "one".into()),
        ("plain".into(), "two".into()),
    ]);
    assert_eq!(resolver.resolve(&["@core", "ipa"]), Ok(("one".into(), "@core/ipa".into())));
    assert_eq!(resolver.resolve(&["plain"]), Ok(("two".into(), "plain".into())));
    assert_eq!(
        resolver.resolve(&["@core"]),
        Err(ResolutionError::PathNotFound("@core".into()))
    );
    assert_eq!(
        resolver.resolve(&["a", "b", "c"]),
        Err(ResolutionError::PathNotFound("a/b/c".into()))
    );
    assert_eq!(resolver.resolve(&[]), Err(ResolutionError::PathNotFound("".into())));
}

#[test]
fn mock_resolver_goes_by_the_later_of_two_entries() {
    let resolver = MockResolver::new(vec![
        ("m".into(), "first".into()),
        ("n".into(), "other".into()),
        ("m".into(), "second".into()),
    ]);
    assert_eq!(resolver.resolve(&["m"]), Ok(("second".into(), "m".into())));
}

#[test]
fn segments_are_joined_with_slashes() {
    assert_eq!(join_segments(&[]), "");
    assert_eq!(join_segments(&["a"]), "a");
    assert_eq!(join_segments(&["a", "b"]), "a/b");
    assert_eq!(join_segments(&["", "b", ""]), "/b/");
}

#[test]
fn the_last_entry_under_a_key_is_found() {
    let entries = vec![
        ("k".to_string(), "1".to_string()),
        ("l".to_string(), "2".to_string()),
        ("k".to_string(), "3".to_string()),
    ];
    assert_eq!(find_text(&entries, &"k".to_string()), Some("3".to_string()));
    assert_eq!(find_text(&entries, &"l".to_string()), Some("2".to_string()));
    assert_eq!(find_text(&entries, &"m".to_string()), None);
}

#[test]
fn resolution_errors_are_worded_for_a_reader() {
    assert_eq!(
        ResolutionError::InvalidPathForResolver("No remote modules here".into()).message(),
        "No remote modules here. Try using a different resolver."
    );
    assert_eq!(
        ResolutionError::PathNotFound("./example/invalid.lang".into()).message(),
        "Failed to resolve path `./example/invalid.lang`."
    );
}
