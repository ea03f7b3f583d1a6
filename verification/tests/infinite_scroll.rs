use d_tweaks::infinite_scroll::{is_handler_attribute, numbers_of, page_params, pager_of, Outcome, ScrollState};

fn pairs(items: &[(&str, &str)]) -> Vec<(String, String)> {
    items.iter().map(|(k, v)| (k.to_string(), v.to_string())).collect()
}

#[test]
fn reads_the_pager_of_the_site() {
    assert_eq!(pager_of("1 / 24"), Some((1, 24)));
    assert_eq!(pager_of(" 3/10 ページ "), Some((3, 10)));
    assert_eq!(pager_of("1"), None);
    assert_eq!(pager_of(""), None);
    // A number too large for a page is left out
    assert_eq!(numbers_of("99999999999 2 x3"), vec![2, 3]);
}

#[test]
fn builds_the_query_of_a_page_from_the_form() {
    let fields = pairs(&[("workType", "1"), ("editModeFlag", "0"), ("selectPage", "1"), ("", "x")]);
    assert_eq!(
        page_params(&fields, 3),
        pairs(&[("workType", "1"), ("editModeFlag", "0"), ("selectPage", "3")])
    );
    // A form without selectPage still gets one
    assert_eq!(page_params(&pairs(&[("editModeFlag", "0")]), 2), pairs(&[("editModeFlag", "0"), ("selectPage", "2")]));
    // A field that is there twice keeps its place and its last value
    assert_eq!(page_params(&pairs(&[("a", "1"), ("b", "2"), ("a", "3")]), 2), pairs(&[("a", "3"), ("b", "2"), ("selectPage", "2")]));
}

#[test]
fn one_page_holds_everything() {
    assert!(ScrollState::start(1, 1).is_none());
    assert!(ScrollState::start(2, 1).is_none());
}

#[test]
fn loads_one_page_at_a_time_until_the_end() {
    let mut state = ScrollState::start(1, 3).unwrap();
    assert_eq!(state.on_visible(), Some(2));
    // A second view while loading asks for nothing
    assert_eq!(state.on_visible(), None);
    assert_eq!(state.on_loaded(2, Some(20)), Outcome::Progress { page: 2, total: 3 });
    assert_eq!(state.on_visible(), Some(3));
    assert_eq!(state.on_loaded(3, Some(20)), Outcome::All);
    assert!(state.finished);
    assert_eq!(state.on_visible(), None);
}

#[test]
fn an_empty_page_or_a_failure_ends_the_scroll() {
    let mut state = ScrollState::start(1, 10).unwrap();
    state.on_visible();
    assert_eq!(state.on_loaded(2, Some(0)), Outcome::All);
    let mut failing = ScrollState::start(1, 10).unwrap();
    failing.on_visible();
    assert_eq!(failing.on_loaded(2, None), Outcome::Failed);
    assert!(failing.finished);
    assert_eq!(failing.on_visible(), None);
}

#[test]
fn finds_the_attributes_that_run_script() {
    assert!(is_handler_attribute("onclick"));
    assert!(is_handler_attribute("onLoad"));
    assert!(is_handler_attribute("ONERROR"));
    assert!(is_handler_attribute("on"));
    assert!(!is_handler_attribute("href"));
    assert!(!is_handler_attribute("data-on"));
    assert!(!is_handler_attribute("o"));
}
