use leo_synthesizer::{ImportParser, ImportParserError, Resolution, Span};

fn segs(v: &[&str]) -> Vec<String> {
    v.iter().map(|s| s.to_string()).collect()
}

#[test]
fn full_path_joins_segments_with_dots() {
    assert_eq!(ImportParser::full_path(&segs(&["core", "unstable", "blake2s"])), "core.unstable.blake2s");
    assert_eq!(ImportParser::full_path(&segs(&["lib"])), "lib");
    assert_eq!(ImportParser::full_path(&segs(&[])), "");
}

#[test]
fn first_request_asks_for_a_parse() {
    let mut p = ImportParser::new();
    let span = Span { line: 1, start: 1 };
    assert_eq!(p.resolve_package(&segs(&["a", "b"]), &span).unwrap(), Resolution::Parse);
}

#[test]
fn request_while_resolving_is_a_cycle() {
    let mut p = ImportParser::new();
    let span = Span { line: 4, start: 8 };
    p.resolve_package(&segs(&["a", "b"]), &span).unwrap();
    match p.resolve_package(&segs(&["a", "b"]), &span) {
        Err(ImportParserError::RecursiveImports(path, s)) => {
            assert_eq!(path, "a.b");
            assert_eq!(s, span);
        },
        other => panic!("unexpected {:?}", other),
    }
}

#[test]
fn resolved_package_is_served_from_the_cache() {
    let mut p = ImportParser::new();
    let span = Span { line: 1, start: 1 };
    p.resolve_package(&segs(&["a", "b"]), &span).unwrap();
    p.finish_package(&segs(&["a", "b"]), 42);
    assert_eq!(p.resolve_package(&segs(&["a", "b"]), &span).unwrap(), Resolution::Cached(42));
    assert_eq!(p.resolve_package(&segs(&["a", "c"]), &span).unwrap(), Resolution::Parse);
}
