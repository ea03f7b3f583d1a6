use d_tweaks::service::{
    comment_request_key, enable_now_files, flag_for, ours, request_of, ruleset_split, search_queries,
    sync_plan, Request,
};

fn all_on() -> Vec<bool> {
    vec![true; 11]
}

#[test]
fn registers_only_the_css_of_the_features_that_are_on() {
    let mut on = all_on();
    on[0] = false;
    let plan = sync_plan(true, &on);
    let ids: Vec<&str> = plan.registrations.iter().map(|r| r.id.as_str()).collect();
    assert_eq!(
        ids,
        vec![
            "dt-episode-grid",
            "dt-no-promo",
            "dt-top-page",
            "dt-work-hero",
            "dt-work-detail",
            "dt-infinite-scroll",
            "dt-player-modal",
            "dt-search-overlay",
            "dt-enabled",
        ]
    );
    assert_eq!(plan.registrations[0].css, vec!["styles/episode-grid.css"]);
    assert_eq!(plan.registrations.last().unwrap().css, vec!["styles/enabled.css"]);
    assert_eq!(plan.enable, vec!["csp", "nico-ua"]);
    assert!(plan.disable.is_empty());
}

#[test]
fn with_the_extension_off_nothing_is_registered_and_no_header_changes() {
    let plan = sync_plan(false, &all_on());
    assert!(plan.registrations.is_empty());
    assert!(plan.enable.is_empty());
    assert_eq!(plan.disable, vec!["csp", "nico-ua"]);
}

#[test]
fn a_header_rule_follows_its_feature() {
    let mut on = all_on();
    on[7] = false;
    let plan = sync_plan(true, &on);
    assert_eq!(plan.enable, vec!["nico-ua"]);
    assert_eq!(plan.disable, vec!["csp"]);
    assert!(!flag_for(&on, "player-modal"));
    assert!(flag_for(&on, "comments"));
    assert!(!flag_for(&on, "no-such-feature"));
    assert_eq!(ruleset_split(true, false), (vec!["csp"], vec!["nico-ua"]));
}

#[test]
fn touches_only_its_own_registrations() {
    let ids: Vec<String> = vec!["dt-list-grid", "other", "dt-enabled"].into_iter().map(String::from).collect();
    assert_eq!(ours(&ids), vec!["dt-list-grid", "dt-enabled"]);
}

#[test]
fn a_tab_gets_the_marker_and_the_css_of_the_features_that_are_on() {
    let mut on = vec![false; 11];
    on[1] = true;
    on[9] = true;
    assert_eq!(enable_now_files(&on), vec!["styles/enabled.css", "styles/episode-grid.css"]);
}

#[test]
fn keys_a_request_by_its_part_id_or_by_its_work_and_episode() {
    assert_eq!(comment_request_key("28641006", "作品A", Some("第6話")).as_deref(), Some("28641006"));
    assert_eq!(comment_request_key("", "作品A", Some("第6話")).as_deref(), Some("作品A|第6話"));
    assert_eq!(comment_request_key("", "作品A", None).as_deref(), Some("作品A|"));
    assert_eq!(comment_request_key("28641006", "  ", None), None);
}

#[test]
fn searches_with_the_episode_first() {
    assert_eq!(search_queries("作品A", Some(" 第6話 ")), vec!["作品A 第6話", "作品A"]);
    assert_eq!(search_queries("作品A", Some("  ")), vec!["作品A"]);
    assert_eq!(search_queries("作品A", None), vec!["作品A"]);
}

#[test]
fn reads_the_type_of_a_message() {
    assert_eq!(request_of(Some("dt/comments")), Request::Comments);
    assert_eq!(request_of(Some("dt/enable-now")), Request::EnableNow);
    assert_eq!(request_of(Some("x")), Request::Other);
    assert_eq!(request_of(None), Request::Other);
}
