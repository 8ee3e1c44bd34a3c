use codecurator::dedup::{
    cluster_representatives, fuzzy_clusters, fuzzy_unique_ids, get_unique_ids, text_hash,
    unique_content_mask,
};
use codecurator::record::{retained_by_ids, select_ids, Record};

fn record(id: &str, text: &str) -> Record {
    Record {
        text: text.to_string(),
        id: id.to_string(),
        file_extension: ".rs".to_string(),
        category: "programming".to_string(),
        file_path: "a.rs".to_string(),
        size_in_bytes: text.len() as u64,
        file_name: "a.rs".to_string(),
        tokens: 1,
    }
}

#[test]
fn content_hash_is_md5_of_text() {
    let h = text_hash(&record("1", ""));
    assert_eq!(
        h,
        vec![0xd4, 0x1d, 0x8c, 0xd9, 0x8f, 0x00, 0xb2, 0x04, 0xe9, 0x80, 0x09, 0x98, 0xec, 0xf8, 0x42, 0x7e]
    );
    let h = text_hash(&record("1", "abc"));
    assert_eq!(
        h,
        vec![0x90, 0x01, 0x50, 0x98, 0x3c, 0xd2, 0x4f, 0xb0, 0xd6, 0x96, 0x3f, 0x7d, 0x28, 0xe1, 0x7f, 0x72]
    );
}

#[test]
fn identical_text_keeps_exactly_one_id() {
    let records = vec![record("first", "fn main() {}"), record("second", "fn main() {}")];
    let ids = get_unique_ids(&records);
    assert_eq!(ids.len(), 1);
    assert!(ids[0] == "first" || ids[0] == "second");
}

#[test]
fn exact_dedup_keeps_one_per_hash_in_input_order() {
    let records = vec![
        record("a", "x"),
        record("b", "y"),
        record("c", "x"),
        record("d", "z"),
        record("e", "y"),
    ];
    assert_eq!(unique_content_mask(&records), vec![true, true, false, true, false]);
    assert_eq!(get_unique_ids(&records), vec!["a".to_string(), "b".to_string(), "d".to_string()]);
}

#[test]
fn exact_dedup_of_nothing_is_nothing() {
    assert!(get_unique_ids(&Vec::new()).is_empty());
}

#[test]
fn select_ids_follows_the_mask() {
    let records = vec![record("a", "1"), record("b", "2"), record("c", "3")];
    assert_eq!(select_ids(&records, &vec![false, true, true]), vec!["b".to_string(), "c".to_string()]);
}

#[test]
fn near_duplicates_share_one_cluster() {
    // Single-character shingles: the second text's set holds 19 of the
    // first's 20 letters, a Jaccard similarity of 0.95.
    let records = vec![
        record("a", "abcdefghijklmnopqrst"),
        record("b", "abcdefghijklmnopqrs"),
    ];
    let cluster = fuzzy_clusters(&records, 8, 10, 128, 1);
    assert_eq!(cluster, vec![0, 0]);
    let keep = cluster_representatives(&cluster);
    assert_eq!(select_ids(&records, &keep), vec!["a".to_string()]);
}

#[test]
fn unrelated_texts_stay_apart() {
    let records = vec![
        record("a", "fn main() { println!(\"hello\"); }"),
        record("b", "SELECT name FROM users WHERE id = 42;"),
        record("c", "fn main() { println!(\"hello\"); }"),
    ];
    let cluster = fuzzy_clusters(&records, 8, 10, 64, 5);
    assert_eq!(cluster, vec![0, 1, 0]);
    assert_eq!(cluster_representatives(&cluster), vec![true, true, false]);
}

#[test]
fn fuzzy_unique_ids_keep_one_per_cluster() {
    let records = vec![
        record("a", "abcdefghijklmnopqrst"),
        record("b", "SELECT name FROM users"),
        record("c", "abcdefghijklmnopqrs"),
    ];
    assert_eq!(fuzzy_unique_ids(&records, 8, 10, 128, 1), vec!["a".to_string(), "b".to_string()]);
    assert!(fuzzy_unique_ids(&Vec::new(), 8, 10, 128, 1).is_empty());
}

#[test]
fn rewrite_filter_keeps_listed_ids() {
    let records = vec![record("a", "1"), record("b", "2"), record("c", "3")];
    let ids = vec!["c".to_string(), "a".to_string(), "zzz".to_string()];
    assert_eq!(retained_by_ids(&records, &ids), vec![true, false, true]);
    assert_eq!(retained_by_ids(&records, &Vec::new()), vec![false, false, false]);
}
