use substrace::paths::{is_insecure_hash_function, is_like_storage_map, is_pattern, match_def_path, pattern_segments, Pattern};

fn path(segs: &[&str]) -> Vec<String> {
    segs.iter().map(|s| s.to_string()).collect()
}

#[test]
fn exact_path_matches() {
    let p = path(&["frame_support", "storage", "StorageMap", "insert"]);
    assert!(match_def_path(&p, &["frame_support", "storage", "StorageMap", "insert"]));
    assert!(is_pattern(&p, Pattern::StorageMapInsert));
}

#[test]
fn changed_segment_does_not_match() {
    let p = path(&["frame_support", "storage", "StorageMap", "remove"]);
    assert!(!match_def_path(&p, &["frame_support", "storage", "StorageMap", "insert"]));
    let q = path(&["frame_support", "storage", "StorageDoubleMap", "insert"]);
    assert!(!is_pattern(&q, Pattern::StorageMapInsert));
}

#[test]
fn truncated_or_extended_path_does_not_match() {
    let short = path(&["frame_support", "storage", "StorageMap"]);
    assert!(!is_pattern(&short, Pattern::StorageMapInsert));
    let long = path(&["frame_support", "storage", "StorageMap", "insert", "x"]);
    assert!(!is_pattern(&long, Pattern::StorageMapInsert));
    assert!(is_pattern(&short, Pattern::StorageMapTrait));
}

#[test]
fn empty_path_matches_only_empty_pattern() {
    let empty: Vec<String> = Vec::new();
    assert!(match_def_path(&empty, &[]));
    assert!(!match_def_path(&empty, &["frame_support"]));
}

#[test]
fn pattern_segments_are_the_registered_ones() {
    assert_eq!(
        pattern_segments(Pattern::WithTransaction),
        vec!["frame_support", "storage", "transactional", "with_transaction"]
    );
    assert_eq!(pattern_segments(Pattern::Twox128), vec!["frame_support", "hash", "Twox128"]);
}

#[test]
fn insecure_hashers_are_recognised() {
    let args = vec![None, Some(path(&["frame_support", "hash", "Twox64Concat"]))];
    assert!(is_insecure_hash_function(&args));
    let safe = vec![Some(path(&["frame_support", "hash", "Blake2_128Concat"])), None];
    assert!(!is_insecure_hash_function(&safe));
    assert!(!is_insecure_hash_function(&Vec::new()));
    assert!(is_insecure_hash_function(&vec![Some(path(&["frame_support", "hash", "Identity"]))]));
}

#[test]
fn storage_types_are_recognised() {
    assert!(is_like_storage_map(&path(&["frame_support", "storage", "types", "nmap", "StorageNMap"])));
    assert!(!is_like_storage_map(&path(&["frame_support", "storage", "types", "value", "StorageValue"])));
}
