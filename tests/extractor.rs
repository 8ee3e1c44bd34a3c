use codecurator::extract::{
    build_record, candidate_extension, extract_entry, file_stem, filter_listdir_by_source,
    get_zip_name, parse_ext, EntryMeta, EntryPath, ExtractCounts, ExtractionError,
    DEFAULT_MAX_FILE_SIZE,
};
use codecurator::record::Record;

fn table() -> Vec<(String, String)> {
    vec![
        (".py".to_string(), "programming".to_string()),
        (".rs".to_string(), "programming".to_string()),
    ]
}

fn meta(name: &str, is_file: bool, size: u64) -> EntryMeta {
    EntryMeta { name: name.to_string(), is_file, size }
}

fn path(p: &str, n: &str) -> Option<EntryPath> {
    Some(EntryPath { file_path: p.to_string(), file_name: n.to_string() })
}

#[test]
fn test_parse_ext() {
    assert_eq!(parse_ext("src/main.rs"), Some(".rs".to_string()));
    assert_eq!(parse_ext("archive.tar.gz"), Some(".tar.gz".to_string()));
    assert_eq!(parse_ext("Makefile"), None);
    assert_eq!(parse_ext("dir/"), None);
}

#[test]
fn test_record_creation() {
    let record = Record {
        text: "fn main() {}".to_string(),
        id: "test-id".to_string(),
        file_extension: ".rs".to_string(),
        category: "programming".to_string(),
        file_path: "test.rs".to_string(),
        size_in_bytes: 13,
        file_name: "test.rs".to_string(),
        tokens: 5,
    };

    assert_eq!(record.tokens, 5);
    assert_eq!(record.file_extension, ".rs");
}

#[test]
fn file_stem_strips_directory_and_last_extension() {
    assert_eq!(file_stem("./zip/octocat-Hello-World_abc123.zip"), "octocat-Hello-World_abc123");
    assert_eq!(file_stem("a/b/c.tar.gz"), "c.tar");
    assert_eq!(file_stem(".hidden"), ".hidden");
    assert_eq!(file_stem("plain"), "plain");
}

#[test]
fn zip_name_strips_cache_tag_after_last_underscore() {
    assert_eq!(get_zip_name("./zip/octocat-Hello-World_abc123.zip"), "octocat-Hello-World");
    assert_eq!(get_zip_name("./zip/my_org-repo_tag.zip"), "my_org-repo");
    assert_eq!(get_zip_name("./zip/octocat-Hello-World.zip"), "octocat-Hello-World");
}

#[test]
fn listing_filter_keeps_manifest_repositories() {
    let paths = vec![
        "./zip/octocat-Hello-World_etag1.zip".to_string(),
        "./zip/other-repo.zip".to_string(),
        "./zip/octocat-Spoon.zip".to_string(),
    ];
    let keys = vec!["octocat-Hello-World".to_string(), "octocat-Spoon".to_string()];
    let kept = filter_listdir_by_source(&paths, &keys).unwrap();
    assert_eq!(kept, vec![paths[0].clone(), paths[2].clone()]);
}

#[test]
fn listing_filter_fails_when_nothing_matches() {
    let paths = vec!["./zip/other-repo.zip".to_string()];
    let keys = vec!["octocat-Hello-World".to_string()];
    let r = filter_listdir_by_source(&paths, &keys);
    assert!(matches!(r, Err(ExtractionError::Validation { .. })));
}

#[test]
fn candidate_requires_file_size_and_known_extension() {
    let t = table();
    let limit = DEFAULT_MAX_FILE_SIZE;
    assert_eq!(limit, 131072);
    assert_eq!(
        candidate_extension(&meta("a/main.py", true, limit), &t, limit),
        Some((".py".to_string(), "programming".to_string()))
    );
    assert_eq!(candidate_extension(&meta("a/main.py", true, limit + 1), &t, limit), None);
    assert_eq!(candidate_extension(&meta("a/README.md", true, 10), &t, limit), None);
    assert_eq!(candidate_extension(&meta("a/dir.py/", false, 0), &t, limit), None);
    assert_eq!(candidate_extension(&meta("a/LICENSE", true, 10), &t, limit), None);
}

#[test]
fn archive_scenario_emits_only_the_python_file() {
    let t = table();
    let entries = vec![
        (meta("Hello-World-main/README.md", true, 128), "# Hello\n".to_string()),
        (meta("Hello-World-main/main.py", true, 50), "  print('hi')  \n".to_string()),
    ];
    let mut records = Vec::new();
    for (m, text) in entries {
        let r = extract_entry(
            &m,
            &text,
            "id-1".to_string(),
            path(&m.name, "x"),
            Some(3),
            &t,
            DEFAULT_MAX_FILE_SIZE,
        );
        if let Ok(rec) = r {
            records.push(rec);
        }
    }
    assert_eq!(records.len(), 1);
    assert_eq!(records[0].file_extension, ".py");
    assert_eq!(records[0].category, "programming");
    assert_eq!(records[0].text, "print('hi')");
    assert_eq!(records[0].size_in_bytes, 50);
}

#[test]
fn oversized_entry_is_never_a_record() {
    let t = table();
    let m = meta("big.rs", true, 131073);
    let r = extract_entry(&m, "fn main() {}", "id".to_string(), path("big.rs", "big.rs"), Some(1), &t, DEFAULT_MAX_FILE_SIZE);
    assert!(matches!(r, Err(ExtractionError::NotCandidate { .. })));
}

#[test]
fn build_record_trims_and_keeps_fields() {
    let m = meta("src/lib.rs", true, 40);
    let r = build_record(
        &m,
        "\n\n  fn a() {\n    1\n  }\n\t",
        "uuid-1".to_string(),
        path("src/lib.rs", "lib.rs"),
        Some(7),
        ".rs".to_string(),
        "programming".to_string(),
    )
    .unwrap();
    assert_eq!(r.text, "fn a() {\n    1\n  }");
    assert_eq!(r.id, "uuid-1");
    assert_eq!(r.file_path, "src/lib.rs");
    assert_eq!(r.file_name, "lib.rs");
    assert_eq!(r.tokens, 7);
    assert_eq!(r.size_in_bytes, 40);
}

#[test]
fn unsafe_path_and_tokenizer_failure_skip_the_entry() {
    let m = meta("../evil.rs", true, 4);
    let r = build_record(&m, "x", "i".to_string(), None, Some(1), ".rs".to_string(), "programming".to_string());
    assert!(matches!(r, Err(ExtractionError::UnsafePath { .. })));
    let r = build_record(&m, "x", "i".to_string(), path("a.rs", "a.rs"), None, ".rs".to_string(), "programming".to_string());
    assert!(matches!(r, Err(ExtractionError::Tokenizer { .. })));
}

#[test]
fn counts_tally_each_outcome() {
    let t = table();
    let mut counts = ExtractCounts::new();
    let entries = vec![
        (meta("r/a.py", true, 10), path("r/a.py", "a.py"), Some(1)),
        (meta("r/b.md", true, 10), path("r/b.md", "b.md"), Some(1)),
        (meta("r/c.py", true, 10), None, Some(1)),
        (meta("r/d.py", true, 10), path("r/d.py", "d.py"), None),
    ];
    for (m, p, tokens) in entries {
        let r = extract_entry(&m, "x", "id".to_string(), p, tokens, &t, DEFAULT_MAX_FILE_SIZE);
        counts.tally(&r);
    }
    assert_eq!(counts, ExtractCounts { extracted: 1, filtered: 1, skipped: 2 });
}

#[test]
fn trimming_keeps_inner_white_space() {
    let m = meta("a.rs", true, 10);
    let r = build_record(
        &m,
        "\u{3000}\u{a0} a \t\n  b \u{2028}",
        "i".to_string(),
        path("a.rs", "a.rs"),
        Some(1),
        ".rs".to_string(),
        "programming".to_string(),
    )
    .unwrap();
    assert_eq!(r.text, "a \t\n  b");
    let r = build_record(&m, " \n\t ", "i".to_string(), path("a.rs", "a.rs"), Some(1), ".rs".to_string(), "programming".to_string()).unwrap();
    assert_eq!(r.text, "");
}
