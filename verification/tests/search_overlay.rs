use d_tweaks::search_overlay::{
    key_visual_size, long_enough, search_badges, search_key, search_params, vod_types, PageCache, Progress,
    SearchBadge, SearchKey, CACHE_LIMIT,
};

#[test]
fn a_new_search_makes_the_older_replies_old() {
    let mut progress = Progress::new();
    let first = progress.begin_search();
    progress.first_page(60, 120);
    assert!(progress.has_more());
    let second = progress.begin_search();
    assert_ne!(first, second);
    assert!(!progress.is_current(first));
    assert!(progress.is_current(second));
    // The counts start again
    assert_eq!(progress.loaded, 0);
    assert_eq!(progress.total, 0);
    assert!(!progress.has_more());
}

#[test]
fn the_generation_wraps() {
    let mut progress = Progress { generation: u32::MAX, loaded: 3, total: 9, loading: true };
    assert_eq!(progress.begin_search(), 0);
    assert!(!progress.loading);
}

#[test]
fn an_empty_page_is_the_end() {
    let mut progress = Progress::new();
    progress.begin_search();
    progress.first_page(60, 200);
    progress.next_page(60, 60, 200);
    assert_eq!(progress.loaded, 120);
    assert!(progress.has_more());
    progress.next_page(120, 0, 200);
    assert_eq!(progress.total, 120);
    assert!(!progress.has_more());
}

#[test]
fn the_total_is_at_least_what_is_on_screen() {
    let mut progress = Progress::new();
    progress.first_page(10, 4);
    assert_eq!(progress.total, 10);
    progress.nothing_found();
    assert_eq!(progress.total, 0);
    progress.set_loading(true);
    assert!(progress.loading);
}

#[test]
fn asks_only_for_two_characters_or_more() {
    assert!(!long_enough(""));
    assert!(!long_enough("あ"));
    assert!(long_enough("あお"));
}

#[test]
fn builds_the_parameters_of_a_page() {
    let first = search_params("作品", vod_types(true), "4", 0, 60, "1");
    let names: Vec<&str> = first.iter().map(|(k, _)| *k).collect();
    assert_eq!(names, vec!["searchKey", "vodTypeList", "sortKey", "length", "mainKeyVisualSize"]);
    assert_eq!(first[1].1, "svod");
    assert_eq!(first[3].1, "60");
    let next = search_params("作品", vod_types(false), "4", 120, 60, "2");
    assert_eq!(next[1].1, "svod_tvod");
    assert_eq!(next[3], ("start", "120".to_string()));
}

#[test]
fn the_image_size_follows_the_setting() {
    assert_eq!(key_visual_size("1"), "1");
    assert_eq!(key_visual_size("off"), "2");
    assert_eq!(key_visual_size(""), "2");
}

#[test]
fn reads_the_badges_of_a_result() {
    let flags: Vec<String> = vec!["viewed", "x", "complete"].into_iter().map(String::from).collect();
    let icons: Vec<String> = vec!["r15".to_string()];
    assert_eq!(
        search_badges(&flags, &icons, Some("tvod")),
        vec![SearchBadge::Watching, SearchBadge::Complete, SearchBadge::R15, SearchBadge::Rental]
    );
    assert!(search_badges(&vec![], &vec![], Some("svod")).is_empty());
}

#[test]
fn keeps_the_newest_replies_by_url() {
    let mut cache: PageCache<u32> = PageCache::new();
    cache.remember("a", 1);
    cache.remember("b", 2);
    cache.remember("a", 3);
    assert_eq!(cache.cached("a"), Some(&3));
    assert_eq!(cache.cached("b"), Some(&2));
    assert_eq!(cache.cached("c"), None);
    assert_eq!(cache.entries.len(), 2);
    assert_eq!(cache.entries[0].0, "a");
    for i in 0..100u32 {
        cache.remember(&format!("u{i}"), i);
    }
    assert_eq!(cache.entries.len(), CACHE_LIMIT);
    assert_eq!(cache.cached("u99"), Some(&99));
    assert_eq!(cache.cached("u0"), None);
}

#[test]
fn the_shortcuts_open_and_escape_closes() {
    // key, meta, ctrl, alt, typing, open, shortcuts
    assert_eq!(search_key("Escape", false, false, false, false, true, false), SearchKey::Close);
    assert_eq!(search_key("Escape", false, false, false, false, false, true), SearchKey::Ignore);
    assert_eq!(search_key("k", true, false, false, false, false, true), SearchKey::Open);
    assert_eq!(search_key("K", false, true, false, true, false, true), SearchKey::Open);
    assert_eq!(search_key("k", false, false, false, false, false, true), SearchKey::Ignore);
    assert_eq!(search_key("/", false, false, false, false, false, true), SearchKey::Open);
    assert_eq!(search_key("/", false, false, false, true, false, true), SearchKey::Ignore);
    assert_eq!(search_key("/", false, false, true, false, false, true), SearchKey::Ignore);
    assert_eq!(search_key("/", false, false, false, false, true, true), SearchKey::Ignore);
    assert_eq!(search_key("k", true, false, false, false, false, false), SearchKey::Ignore);
}
