use netease_music_downloader_rs::ids::{merge_ids, parse_id_lines};

fn strings(v: &[&str]) -> Vec<String> {
    v.iter().map(|s| s.to_string()).collect()
}

#[test]
fn merge_ids_rejects_empty_input() {
    let err = merge_ids(vec![], None).expect_err("empty id list should fail");
    assert!(err.message().contains("please provide at least one music ID"));
}

#[test]
fn merge_ids_deduplicates_and_sorts() {
    let merged = merge_ids(strings(&["2", "1", "1"]), Some(strings(&["3", "2"]))).expect("merge ids");
    assert_eq!(merged, strings(&["1", "2", "3"]));
}

#[test]
fn merge_ids_orders_as_strings_and_is_idempotent() {
    let merged = merge_ids(strings(&["10", "9", "100"]), None).expect("merge");
    assert_eq!(merged, strings(&["10", "100", "9"]));
    let again = merge_ids(merged.clone(), None).expect("merge");
    assert_eq!(again, merged);
    let reordered = merge_ids(strings(&["100"]), Some(strings(&["9", "10", "9"]))).expect("merge");
    assert_eq!(reordered, merged);
    assert!(merge_ids(vec![], Some(vec![])).is_err());
}

#[test]
fn load_ids_from_file_ignores_comments_and_empty_lines() {
    let ids = parse_id_lines("123\n# comment\n\n456\n");
    assert_eq!(ids, strings(&["123", "456"]));
    let ids = parse_id_lines("  7 \r\n\t#x\r\n 8");
    assert_eq!(ids, strings(&["7", "8"]));
    assert!(parse_id_lines("").is_empty());
}
