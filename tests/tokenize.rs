use std::collections::HashMap;

use codecurator::extract::{process_valid_file, EntryMeta, EntryPath, ExtractionError};
use tokenizers::models::wordlevel::WordLevel;
use tokenizers::Tokenizer;

fn tokenizer(with_unknown: bool) -> Tokenizer {
    let mut vocab = HashMap::new();
    vocab.insert("known".to_string(), 1u32);
    if with_unknown {
        vocab.insert("[UNK]".to_string(), 0u32);
    }
    let model = WordLevel::builder().vocab(vocab).unk_token("[UNK]".to_string()).build().unwrap();
    Tokenizer::new(model)
}

fn table() -> Vec<(String, String)> {
    vec![(".py".to_string(), "programming".to_string())]
}

fn meta(name: &str, size: u64) -> EntryMeta {
    EntryMeta { name: name.to_string(), is_file: true, size }
}

fn path() -> Option<EntryPath> {
    Some(EntryPath { file_path: "repo/main.py".to_string(), file_name: "main.py".to_string() })
}

#[test]
fn qualifying_entry_gets_fresh_id_and_token_count() {
    let tok = tokenizer(true);
    let a = process_valid_file(&meta("repo/main.py", 20), "  print(1)\n", path(), &tok, &table(), 131072).unwrap();
    let b = process_valid_file(&meta("repo/main.py", 20), "  print(1)\n", path(), &tok, &table(), 131072).unwrap();
    assert_eq!(a.text, "print(1)");
    assert_eq!(a.tokens, 1);
    assert_eq!(a.id.len(), 36);
    assert_ne!(a.id, b.id);
    assert_eq!(a.file_extension, ".py");
    assert_eq!(a.file_name, "main.py");
}

#[test]
fn tokenizer_failure_skips_the_entry() {
    let tok = tokenizer(false);
    let r = process_valid_file(&meta("repo/main.py", 20), "print(1)", path(), &tok, &table(), 131072);
    assert!(matches!(r, Err(ExtractionError::Tokenizer { .. })));
}

#[test]
fn non_candidate_is_rejected_before_tokenizing() {
    let tok = tokenizer(true);
    let r = process_valid_file(&meta("repo/README.md", 20), "# hi", path(), &tok, &table(), 131072);
    assert!(matches!(r, Err(ExtractionError::NotCandidate { .. })));
    let r = process_valid_file(&meta("repo/main.py", 20), "x", None, &tok, &table(), 131072);
    assert!(matches!(r, Err(ExtractionError::UnsafePath { .. })));
}
