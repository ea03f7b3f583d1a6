use d_tweaks::cache::{
    after_write, comment_cache_keys, comment_key, AfterWrite, comments_fresh, forget_index, missing_video_keys, stale_video_keys, video_hit,
    video_key, CommentIndex, VideoIdHit, DAY_MS, MAX_ENTRIES,
};

fn ids(index: &CommentIndex) -> Vec<String> {
    index.ids()
}

#[test]
fn builds_the_keys() {
    assert_eq!(comment_key("so46649112"), "dt:cmt:so46649112");
    assert_eq!(video_key("28641006"), "dt:vid:v2:28641006");
}

#[test]
fn the_same_video_moves_to_the_end() {
    let mut index = CommentIndex::new();
    assert!(index.needs_load());
    index.fill(vec!["a".to_string(), "b".to_string(), "c".to_string()]);
    assert!(!index.needs_load());
    let evicted = index.touch("a");
    assert!(evicted.is_empty());
    assert_eq!(ids(&index), vec!["b", "c", "a"]);
}

#[test]
fn keeps_at_most_the_limit_and_evicts_the_oldest() {
    let mut index = CommentIndex::new();
    index.fill((0..MAX_ENTRIES).map(|i| format!("v{i}")).collect());
    let evicted = index.touch("new");
    assert_eq!(evicted, vec!["v0"]);
    let now = ids(&index);
    assert_eq!(now.len(), MAX_ENTRIES);
    assert_eq!(now.first().unwrap(), "v1");
    assert_eq!(now.last().unwrap(), "new");
}

#[test]
fn an_unread_index_is_edited_as_an_empty_one() {
    let mut index = CommentIndex::new();
    let evicted = index.touch("x");
    assert!(evicted.is_empty());
    assert_eq!(ids(&index), vec!["x"]);
}

#[test]
fn a_fill_does_not_replace_a_newer_copy() {
    let mut index = CommentIndex::new();
    index.touch("x");
    index.fill(vec!["old".to_string()]);
    assert_eq!(ids(&index), vec!["x"]);
}

#[test]
fn halving_keeps_the_newer_half() {
    let mut index = CommentIndex::new();
    index.fill(vec!["a", "b", "c", "d", "e"].into_iter().map(String::from).collect());
    let evicted = index.halve();
    assert_eq!(evicted, vec!["a", "b"]);
    assert_eq!(ids(&index), vec!["c", "d", "e"]);
    let mut one = CommentIndex::new();
    one.fill(vec!["only".to_string()]);
    assert!(one.halve().is_empty());
    assert_eq!(ids(&one), vec!["only"]);
}

#[test]
fn dropping_an_id_removes_every_copy() {
    let mut index = CommentIndex::new();
    index.fill(vec!["a", "b", "a"].into_iter().map(String::from).collect());
    index.drop_id("a");
    assert_eq!(ids(&index), vec!["b"]);
}

#[test]
fn forgetting_the_index_reads_it_again() {
    let mut index = CommentIndex::new();
    index.touch("x");
    forget_index(&mut index);
    assert!(index.needs_load());
    assert!(ids(&index).is_empty());
}

#[test]
fn finds_the_keys_of_an_old_version() {
    let keys: Vec<String> = vec!["dt:vid:123", "dt:vid:v2:123", "dt:cmt:so1", "dt:vid:v1:9"]
        .into_iter()
        .map(String::from)
        .collect();
    assert_eq!(stale_video_keys(&keys), vec!["dt:vid:123", "dt:vid:v1:9"]);
}

#[test]
fn finds_the_not_found_entries() {
    let entries = vec![
        ("dt:vid:v2:1".to_string(), Some(false)),
        ("dt:vid:v2:2".to_string(), Some(true)),
        ("dt:vid:v2:3".to_string(), None),
        ("dt:cmt:so1".to_string(), Some(false)),
    ];
    assert_eq!(missing_video_keys(&entries), vec!["dt:vid:v2:1"]);
}

#[test]
fn a_map_entry_lives_thirty_days_and_a_miss_one_day() {
    let hit = video_hit(Some("so1".to_string()), None, Some(1420), Some(29 * DAY_MS));
    match hit {
        Some(VideoIdHit::Found(video)) => {
            assert_eq!(video.id, "so1");
            assert_eq!(video.title, "");
            assert_eq!(video.seconds, Some(1420));
        }
        _ => panic!("a young entry is found"),
    }
    assert!(video_hit(Some("so1".to_string()), None, None, Some(30 * DAY_MS)).is_none());
    assert!(matches!(video_hit(None, None, None, Some(DAY_MS - 1)), Some(VideoIdHit::Missing)));
    assert!(video_hit(None, None, None, Some(DAY_MS)).is_none());
    assert!(video_hit(Some("so1".to_string()), None, None, None).is_none());
}

#[test]
fn comments_live_six_hours() {
    assert!(comments_fresh(Some(0)));
    assert!(comments_fresh(Some(6 * 3_600_000 - 1)));
    assert!(!comments_fresh(Some(6 * 3_600_000)));
    assert!(!comments_fresh(None));
}

#[test]
fn picks_the_keys_of_the_comment_cache() {
    let keys: Vec<String> = vec![
        "dt:vid:v2:abc".to_string(),
        "dt:vid:old".to_string(),
        "dt:cmt:sm9".to_string(),
        "dt:cmtidx".to_string(),
        "dt:cmtidx2".to_string(),
        "enabled".to_string(),
        "dt:rental:v1".to_string(),
    ];
    assert_eq!(
        comment_cache_keys(&keys),
        vec![
            "dt:vid:v2:abc".to_string(),
            "dt:vid:old".to_string(),
            "dt:cmt:sm9".to_string(),
            "dt:cmtidx".to_string(),
        ]
    );
    assert!(comment_cache_keys(&Vec::new()).is_empty());
}

#[test]
fn a_failed_write_halves_then_drops() {
    let mut index = CommentIndex::new();
    index.fill(Vec::new());
    for id in ["a", "b", "c", "d", "e"] {
        index.touch(id);
    }
    assert!(matches!(after_write(&mut index, "e", false, true), AfterWrite::Done));
    assert_eq!(ids(&index), vec!["a", "b", "c", "d", "e"]);
    match after_write(&mut index, "e", false, false) {
        AfterWrite::Retry(evicted) => assert_eq!(evicted, vec!["a".to_string(), "b".to_string()]),
        _ => panic!("a first failure retries"),
    }
    assert_eq!(ids(&index), vec!["c", "d", "e"]);
    assert!(matches!(after_write(&mut index, "e", true, false), AfterWrite::GiveUp));
    assert_eq!(ids(&index), vec!["c", "d"]);
}

#[test]
fn a_failed_write_keeps_the_loaded_index() {
    let mut index = CommentIndex::new();
    index.fill(Vec::new());
    index.touch("a");
    assert!(matches!(after_write(&mut index, "a", false, false), AfterWrite::Retry(_)));
    assert!(!index.needs_load());
    assert!(matches!(after_write(&mut index, "a", true, false), AfterWrite::GiveUp));
    assert!(!index.needs_load());
    assert!(ids(&index).is_empty());
}
