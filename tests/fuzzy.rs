use codecurator::fuzzy::{
    build_connected_components, compute_signatures, find_similar_pairs, generate_ngrams,
    near_duplicate_clusters, similar,
};
use codecurator::record::Record;
use codecurator::union_find::UnionFind;

#[test]
fn ngrams_are_character_windows() {
    assert_eq!(generate_ngrams("abcd", 2), vec!["ab", "bc", "cd"]);
    assert_eq!(generate_ngrams("abc", 3), vec!["abc"]);
    assert_eq!(generate_ngrams("héllo", 4), vec!["héll", "éllo"]);
}

#[test]
fn short_text_is_its_own_shingle() {
    assert_eq!(generate_ngrams("ab", 5), vec!["ab"]);
    assert_eq!(generate_ngrams("", 3), vec![""]);
}

#[test]
fn similarity_compares_agreeing_positions_to_threshold() {
    let a = vec![1, 2, 3, 4, 5];
    let b = vec![1, 2, 3, 4, 9];
    assert!(similar(&a, &b, 8, 10));
    assert!(!similar(&a, &b, 9, 10));
    assert!(similar(&a, &a, 1, 1));
}

#[test]
fn similar_pairs_are_listed_in_order() {
    let sigs = vec![vec![1, 2], vec![1, 2], vec![3, 4], vec![1, 2]];
    assert_eq!(find_similar_pairs(&sigs, 1, 1), vec![(0, 1), (0, 3), (1, 3)]);
    assert!(find_similar_pairs(&Vec::new(), 1, 2).is_empty());
}

#[test]
fn components_are_named_by_smallest_member() {
    let pairs = vec![(3, 4), (1, 3), (0, 2)];
    assert_eq!(build_connected_components(&pairs, 6), vec![0, 1, 0, 1, 1, 5]);
}

#[test]
fn clusters_from_signatures() {
    let sigs = vec![vec![7, 7, 7], vec![1, 2, 3], vec![7, 7, 8], vec![1, 2, 3]];
    assert_eq!(near_duplicate_clusters(&sigs, 2, 3), vec![0, 1, 0, 1]);
}

#[test]
fn signatures_have_the_requested_size_and_are_deterministic() {
    let doc = Record {
        text: "hello world".to_string(),
        id: "1".to_string(),
        file_extension: ".txt".to_string(),
        category: "programming".to_string(),
        file_path: "a".to_string(),
        size_in_bytes: 11,
        file_name: "a".to_string(),
        tokens: 2,
    };
    let docs = vec![doc.clone(), doc];
    let sigs = compute_signatures(&docs, 16, 3);
    assert_eq!(sigs.len(), 2);
    assert_eq!(sigs[0].len(), 16);
    assert_eq!(sigs[0], sigs[1]);
    assert!(sigs[0].iter().any(|v| *v != sigs[0][0]));
}

#[test]
fn union_find_merges_classes() {
    let mut uf = UnionFind::new(5);
    assert_eq!(uf.size(), 5);
    uf.union(0, 1);
    uf.union(3, 4);
    assert_eq!(uf.find(0), uf.find(1));
    assert_ne!(uf.find(1), uf.find(3));
    uf.union(1, 4);
    assert_eq!(uf.find(0), uf.find(3));
    assert_ne!(uf.find(2), uf.find(0));
    let comps = uf.get_components();
    let root = uf.find(0);
    assert_eq!(comps[root], vec![0, 1, 3, 4]);
    assert_eq!(comps[uf.find(2)], vec![2]);
}
