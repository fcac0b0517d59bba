use runboard::video::select_video;

#[test]
fn select_no_candidates_is_empty() {
    let uris: Vec<String> = Vec::new();
    assert_eq!(select_video(&uris), "");
}

#[test]
fn select_single_candidate() {
    let uris = vec!["a".to_string()];
    assert_eq!(select_video(&uris), "a");
}

#[test]
fn select_two_candidates_prefers_second() {
    let uris = vec!["a".to_string(), "b".to_string()];
    assert_eq!(select_video(&uris), "b");
}

#[test]
fn select_more_than_two_is_empty() {
    let uris = vec!["a".to_string(), "b".to_string(), "c".to_string()];
    assert_eq!(select_video(&uris), "");
}
