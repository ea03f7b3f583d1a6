use d_tweaks::niconico::{headers, search_ok, search_params, threads_url, watch_url};
use d_tweaks::order::sort_by_key;

#[test]
fn searches_the_titles_by_the_comment_count() {
    let params = search_params("作品A 第6話");
    assert_eq!(params[0], ("q", "作品A 第6話".to_string()));
    assert_eq!(params[3], ("_sort", "-commentCounter".to_string()));
    assert_eq!(params[4], ("_limit", "100".to_string()));
    assert_eq!(params[5], ("_context", "d-tweaks".to_string()));
}

#[test]
fn sends_the_headers_that_nicovideo_requires() {
    assert_eq!(headers(false).len(), 3);
    assert_eq!(headers(true)[3], ("Content-Type", "text/plain;charset=UTF-8"));
}

#[test]
fn builds_the_urls_of_a_video() {
    assert_eq!(watch_url("so1"), "https://www.nicovideo.jp/watch/so1?responseType=json");
    assert_eq!(threads_url("https://public.example"), "https://public.example/v1/threads");
    assert!(search_ok(Some(200)));
    assert!(!search_ok(Some(400)));
    assert!(!search_ok(None));
}

#[test]
fn orders_the_comments_by_time() {
    let items: Vec<(i64, &str)> = vec![(300, "c"), (100, "a"), (300, "d"), (0, "z"), (100, "b")];
    let sorted = sort_by_key(items);
    assert_eq!(sorted, vec![(0, "z"), (100, "a"), (100, "b"), (300, "c"), (300, "d")]);
    let empty: Vec<(i64, u8)> = Vec::new();
    assert!(sort_by_key(empty).is_empty());
}
