use codecurator::source::{parse_line, parse_source, parse_source_as_hashset, SourceError};

#[test]
fn parse_line_splits_owner_and_name() {
    let repo = parse_line("octocat/Hello-World").unwrap();
    assert_eq!(repo.user, "octocat");
    assert_eq!(repo.name, "Hello-World");
}

#[test]
fn parse_line_rejects_other_slash_counts() {
    assert!(matches!(parse_line("octocat"), Err(SourceError::MalformedLine(_))));
    assert!(matches!(parse_line("a/b/c"), Err(SourceError::MalformedLine(_))));
    assert!(matches!(parse_line(""), Err(SourceError::MalformedLine(_))));
}

#[test]
fn parse_source_reads_json_lines_and_skips_bad_ones() {
    let input = "\"octocat/Hello-World\"\nnot json\n\"bad\"\n\"rust-lang/rust\"\n";
    let repos = parse_source(input).unwrap();
    assert_eq!(
        repos,
        vec![
            ("octocat".to_string(), "Hello-World".to_string()),
            ("rust-lang".to_string(), "rust".to_string()),
        ]
    );
}

#[test]
fn parse_source_decodes_json_escapes() {
    let repos = parse_source("\"a\\/b\"").unwrap();
    assert_eq!(repos, vec![("a".to_string(), "b".to_string())]);
}

#[test]
fn empty_manifest_is_a_validation_error() {
    assert!(matches!(parse_source(""), Err(SourceError::Empty)));
    assert!(matches!(parse_source("\"no-slash\"\n"), Err(SourceError::Empty)));
}

#[test]
fn manifest_keys_join_owner_and_name() {
    let keys = parse_source_as_hashset("\"octocat/Hello-World\"\n\"x/y\"");
    assert_eq!(keys, vec!["octocat-Hello-World".to_string(), "x-y".to_string()]);
    assert!(parse_source_as_hashset("").is_empty());
}
