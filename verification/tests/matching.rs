use d_tweaks::matching::{
    episode_number, pick, sanitize_title, season_token, title_episode_numbers, title_matches_episode,
    Candidate, Want,
};

/// The search. The work title must already be through `sanitize_title`.
fn want<'a>(
    work: &'a str,
    label: Option<&'a str>,
    title: Option<&'a str>,
    duration: Option<u64>,
) -> Want<'a> {
    Want {
        work_title: work,
        episode_label: label,
        episode_title: title,
        duration_seconds: duration,
        season: season_token(work),
    }
}

fn candidate(id: &str, title: &str, official: bool, comments: u64, len: u64) -> Candidate {
    Candidate {
        content_id: id.into(),
        title: title.into(),
        channel_id: if official { Some(1) } else { None },
        comment_count: comments,
        length_seconds: Some(len),
    }
}

#[test]
fn never_matches_a_different_episode_from_a_bare_number() {
    let title = "作品F　シーズン4　第16話　サブタイトルF1";
    assert!(!title_matches_episode(title, "6"));
    assert!(title_matches_episode(title, "16"));

    let sixth = "作品F　シーズン4　第6話　サブタイトルF2";
    assert!(title_matches_episode(sixth, "6"));
    assert!(title_matches_episode(sixth, "第6話"));
}

#[test]
fn ignores_numbers_that_are_not_episode_numbers() {
    let title = "作品A シーズン2　第363話　「サブタイトル前／後」";
    assert!(!title_matches_episode(title, "2"));
    assert!(!title_matches_episode(title, "第2話"));
    assert!(title_matches_episode(title, "第363話"));

    let sub = "作品名　第7話　3年目の夏";
    assert!(!title_matches_episode(sub, "3"));
    assert!(title_matches_episode(sub, "7"));
}

#[test]
fn understands_other_episode_notations() {
    assert!(title_matches_episode(
        "「作品D」第二期　第十四回　サブタイトルD",
        "第十四回"
    ));
    assert!(title_matches_episode("作品名 #6 サブタイトル", "第6話"));
    assert!(title_matches_episode("Work Title Episode 12", "12"));
    assert!(title_matches_episode("作品名 6話 サブタイトル", "6"));
}

#[test]
fn prefers_the_same_season() {
    let candidates = [
        candidate("sm1", "作品D　第6話　サブタイトル", true, 9000, 1420),
        candidate("sm2", "「作品D」第二期　第6話　サブタイトル", true, 300, 1420),
    ];
    let picked = pick(
        &candidates,
        &want("作品D 第二期", Some("第6話"), None, Some(1420)),
    )
    .unwrap();
    assert_eq!(picked.content_id, "sm2");

    let picked = pick(&candidates, &want("作品D", Some("第6話"), None, Some(1420))).unwrap();
    assert_eq!(picked.content_id, "sm1", "the one with more comments");
}

#[test]
fn picks_the_right_episode_from_a_real_reply() {
    let candidates = [
        candidate("so1", "作品E　第5話　サブタイトルE", true, 2079, 1420),
        candidate("so2", "作品E 第5話「サブタイトルE」", true, 62182, 1420),
        candidate("so3", "作品E 第4話「サブタイトルE2」", true, 69830, 1420),
        candidate("so4", "個人配信2026-07-21「雑談、『作品E』", true, 0, 4140),
    ];
    let picked = pick(
        &candidates,
        &want("作品E", Some("第5話"), Some("サブタイトルE"), Some(1420)),
    )
    .expect("episode 5 must be found");
    assert_eq!(
        picked.content_id, "so2",
        "the same episode: more comments wins"
    );
}

#[test]
fn matches_across_bracket_differences() {
    let candidates = [candidate(
        "so1",
        "「作品D」第二期　第十四回　サブタイトルD",
        true,
        500,
        1420,
    )];
    let picked = pick(
        &candidates,
        &want("作品D 第二期", Some("第十四回"), Some("サブタイトルD"), Some(1420)),
    )
    .unwrap();
    assert_eq!(picked.content_id, "so1");

    let candidates = [candidate(
        "so2",
        "作品A シーズン2　第363話　「サブタイトル前／後」",
        true,
        500,
        93,
    )];
    let picked = pick(
        &candidates,
        &want(
            "作品A シーズン2",
            Some("第363話"),
            Some("サブタイトル前／後"),
            Some(93),
        ),
    )
    .unwrap();
    assert_eq!(picked.content_id, "so2");
}

#[test]
fn gives_up_instead_of_showing_another_episode() {
    let candidates = [
        candidate("so1", "作品A シーズン2　第362話　「サブタイトル362」", true, 900, 93),
        candidate("so2", "作品A シーズン2　第364話　「サブタイトル364」", true, 800, 93),
    ];
    assert!(pick(
        &candidates,
        &want("作品A シーズン2", Some("第363話"), None, Some(93))
    )
    .is_none());
}

#[test]
fn requires_the_work_title_too() {
    let candidates = [candidate("so1", "別のアニメ　第6話　サブタイトル", true, 900, 1420)];
    assert!(pick(
        &candidates,
        &want("作品A シーズン2", Some("第6話"), None, Some(1420))
    )
    .is_none());
}

#[test]
fn drops_previews_by_length() {
    let candidates = [
        candidate("so1", "作品名　第6話予告", true, 5000, 90),
        candidate("so2", "作品名　第6話　サブタイトル", true, 100, 1420),
    ];
    let picked = pick(&candidates, &want("作品名", Some("第6話"), None, Some(1420))).unwrap();
    assert_eq!(picked.content_id, "so2");
}

#[test]
fn keeps_uploads_that_are_a_little_longer() {
    let candidates = [candidate("so1", "作品名　第6話　サブタイトル", true, 100, 1480)];
    assert!(pick(&candidates, &want("作品名", Some("第6話"), None, Some(1420))).is_some());
}

#[test]
fn prefers_the_candidate_whose_subtitle_matches() {
    let candidates = [
        candidate("so1", "作品名　第6話　ちがうサブタイトル", true, 9000, 1420),
        candidate("so2", "作品名　第6話　「サブタイトルF2」", true, 100, 1420),
    ];
    let picked = pick(
        &candidates,
        &want("作品名", Some("第6話"), Some("サブタイトルF2"), Some(1420)),
    )
    .unwrap();
    assert_eq!(picked.content_id, "so2");
}

#[test]
fn reads_season_tokens_from_work_titles() {
    assert_eq!(season_token("「作品D」第二期").as_deref(), Some("第二期"));
    assert_eq!(season_token("作品A シーズン2").as_deref(), Some("シーズン2"));
    assert_eq!(season_token("作品A"), None);
}

#[test]
fn sanitizes_decorations_from_work_titles() {
    assert_eq!(sanitize_title("作品A シーズン2"), "作品A シーズン2");
    assert_eq!(sanitize_title("劇場版 作品B"), "作品B");
    assert_eq!(sanitize_title("ＷＯＲＫ　ＴＩＴＬＥ"), "WORK TITLE");
    assert_eq!(sanitize_title("作品C 〜サブタイトルC〜"), "作品C 〜サブタイトルC〜");
}

#[test]
fn unwraps_quoted_title_but_drops_notes() {
    assert_eq!(sanitize_title("「作品D」第二期"), "作品D");
    assert_eq!(sanitize_title("作品G＜無修正Ver.＞"), "作品G");
    assert_eq!(sanitize_title("作品A（第2期）"), "作品A");
    // An open bracket without its pair keeps the text
    assert_eq!(sanitize_title("未対応（かっこ"), "未対応（かっこ");
}

#[test]
fn parses_episode_numbers() {
    assert_eq!(episode_number("第363話"), Some(363));
    assert_eq!(episode_number("第５話"), Some(5));
    assert_eq!(episode_number("#12"), Some(12));
    assert_eq!(episode_number("＃05"), Some(5));
    assert_eq!(episode_number("本編"), None);
    assert_eq!(episode_number("第十五回"), None);
}

#[test]
fn matches_kanji_numbered_episodes_by_string() {
    let title = "「作品D」第二期　第十四回　サブタイトルD";
    assert!(title_matches_episode(title, "第十四回"));
    assert!(!title_matches_episode(title, "第十三回"));
}

#[test]
fn matches_numeric_episodes_and_width_variants() {
    let title = "作品A シーズン2　第363話　「サブタイトル前／後」";
    assert!(title_matches_episode(title, "第363話"));
    assert!(!title_matches_episode(title, "第364話"));
    assert!(title_matches_episode("作品A　第３６３話", "第363話"));
    assert!(title_matches_episode("作品A 第5話", "#5"));
}

#[test]
fn picks_official_upload_with_most_comments() {
    let candidates = vec![
        candidate("sm1", "作品A 第363話 音MAD", false, 99999, 211),
        candidate("so1", "作品A シーズン2　第363話　「サブタイトル前」", true, 28, 93),
        candidate("so2", "作品A シーズン2 第363話「サブタイトル前」", true, 51, 93),
        candidate("so3", "作品A シーズン2　第362話　「サブタイトル362」", true, 900, 94),
    ];
    let picked = pick(&candidates, &want("作品A シーズン2", Some("第363話"), None, None)).unwrap();
    assert_eq!(
        picked.content_id, "so2",
        "the same episode: more comments wins"
    );
}

#[test]
fn falls_back_to_duration_when_episode_label_absent() {
    let candidates = vec![
        candidate("so1", "劇場版 作品B 予告", true, 10, 90),
        candidate("so2", "劇場版 作品B 本編", true, 5, 6000),
    ];
    let picked = pick(&candidates, &want("劇場版 作品B", None, None, Some(6000))).unwrap();
    assert_eq!(picked.content_id, "so2");
}

#[test]
fn returns_none_when_nothing_official() {
    let candidates = vec![candidate("sm1", "作品A MAD", false, 100, 200)];
    assert!(pick(&candidates, &want("作品A", Some("第1話"), None, None)).is_none());
}

#[test]
fn a_season_or_a_subtitle_number_is_no_episode_number() {
    assert!(!title_matches_episode("作品A 第2期　第5話", "第2話"));
    assert!(title_matches_episode("作品A 第2期　第5話", "第5話"));
    assert!(!title_matches_episode("作品名　第7話　3回目の夏", "3"));
    assert!(title_matches_episode("作品名　第7話　3回目の夏", "7"));
    assert!(title_matches_episode("作品名 第6回 サブタイトル", "6"));
}

#[test]
fn lists_the_episode_numbers_in_the_order_of_the_text() {
    assert_eq!(title_episode_numbers("第6話"), vec![6]);
    assert_eq!(title_episode_numbers("第6回"), vec![6]);
    assert_eq!(title_episode_numbers("#6"), vec![6]);
    assert_eq!(title_episode_numbers("Episode 6"), vec![6]);
    assert_eq!(title_episode_numbers("6話"), vec![6]);
    assert_eq!(title_episode_numbers("作品F　シーズン4　第16話　サブタイトルF1"), vec![16]);
    assert_eq!(title_episode_numbers("作品名　第7話　3年目の夏"), vec![7]);
    assert_eq!(title_episode_numbers("作品A 第2期　第5話"), vec![5]);
    assert_eq!(title_episode_numbers("第1話・第2話"), vec![1, 2]);
    assert!(title_episode_numbers("作品名　3回目の夏").is_empty());
}
