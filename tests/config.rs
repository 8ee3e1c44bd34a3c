use codecurator::classify::{get_ext_ft, get_ext_pl};
use codecurator::config::{Command, DedupeConfig, DownloadConfig, ExtractionConfig, Level};
use codecurator::digest::{le_u64_prefix, u64_le_bytes};
use codecurator::extract::{ExtractionError, LanguageEntry};

#[test]
fn download_config_overrides() {
    let cmd = Command::Download {
        source: "m.jsonl".to_string(),
        zip_dir: Some("/tmp/z".to_string()),
        user_agent: None,
        workers: Some(4),
    };
    let c = DownloadConfig::from_cli(&cmd);
    assert_eq!(c.source, "m.jsonl");
    assert_eq!(c.zip_dir, "/tmp/z");
    assert_eq!(c.user_agent, "CodeCurator");
    assert_eq!(c.workers, 4);
}

#[test]
fn extraction_config_defaults() {
    let cmd = Command::Extract {
        source: "m.jsonl".to_string(),
        zip_dir: None,
        jsonl_dir: Some("out".to_string()),
        linguist_path: None,
        max_file_size: None,
        languages: Some(vec!["Rust".to_string()]),
    };
    let c = ExtractionConfig::from_cli(&cmd);
    assert_eq!(c.zip_dir, "./zip");
    assert_eq!(c.jsonl_dir, "out");
    assert_eq!(c.linguist_path, "./vendor/languages.yml");
    assert_eq!(c.max_file_size, 131072);
    assert_eq!(c.languages, Some(vec!["Rust".to_string()]));
}

#[test]
fn dedupe_config_sets_each_directory() {
    let cmd = Command::Dedupe {
        source: "m.jsonl".to_string(),
        jsonl_dir: None,
        exact_dedup_dir: Some("e".to_string()),
        dest_dir: Some("d".to_string()),
    };
    let c = DedupeConfig::from_cli(&cmd);
    assert_eq!(c.jsonl_dir, "./jsonl");
    assert_eq!(c.exact_dedup_dir, "e");
    assert_eq!(c.dest_dir, "d");
    assert_eq!((c.threshold_num, c.threshold_den), (8, 10));
    let other = DedupeConfig::from_cli(&Command::Download { source: "s".to_string(), zip_dir: None, user_agent: None, workers: None });
    assert_eq!(other.source, "./config/example.jsonl");
}

#[test]
fn level_labels() {
    assert_eq!(Level::Info.label(), "[INFO]");
    assert_eq!(Level::Warn.label(), "[WARNING]");
    assert_eq!(Level::Error.label(), "[ERROR]");
}

fn lang(name: &str, kind: Option<&str>, exts: &[&str]) -> LanguageEntry {
    LanguageEntry {
        name: name.to_string(),
        kind: kind.map(|k| k.to_string()),
        extensions: exts.iter().map(|e| e.to_string()).collect(),
    }
}

fn doc() -> Vec<LanguageEntry> {
    vec![
        lang("Python", Some("programming"), &[".py", ".pyw"]),
        lang("Markdown", Some("prose"), &[".md"]),
        lang("Rust", Some("programming"), &[".rs"]),
        lang("Unknown", None, &[".u"]),
    ]
}

fn rows(v: &[&str]) -> Vec<(String, String)> {
    v.iter().map(|e| (e.to_string(), "programming".to_string())).collect()
}

#[test]
fn programming_table_takes_programming_languages_only() {
    assert_eq!(get_ext_ft(&doc()).unwrap(), rows(&[".py", ".pyw", ".rs"]));
    let r = get_ext_ft(&vec![lang("Markdown", Some("prose"), &[".md"])]);
    assert!(matches!(r, Err(ExtractionError::Validation { .. })));
}

#[test]
fn language_selection_restricts_or_falls_back() {
    assert_eq!(get_ext_pl(&doc(), &vec!["Rust".to_string()]).unwrap(), rows(&[".rs"]));
    assert_eq!(
        get_ext_pl(&doc(), &vec!["Nope".to_string(), "Markdown".to_string()]).unwrap(),
        rows(&[".py", ".pyw", ".rs"])
    );
}

#[test]
fn little_endian_round_trip() {
    let b = u64_le_bytes(0x0102030405060708);
    assert_eq!(b, vec![8, 7, 6, 5, 4, 3, 2, 1]);
    assert_eq!(le_u64_prefix(&b), 0x0102030405060708);
    let mut longer = b.clone();
    longer.extend_from_slice(&[0xff, 0xff]);
    assert_eq!(le_u64_prefix(&longer), 0x0102030405060708);
}
