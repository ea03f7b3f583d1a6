use d_tweaks::clock::timestamp;
use d_tweaks::comments::episode_label;
use d_tweaks::player_meta::{
    main_story_range, meta_items, plan_from, skip_at, work_url, Action, Chapter, Plan,
    RawChapter, MIN_TIME_TO_SKIP_DEFAULT_MS, NEXT_EPISODE, SKIP_TO_MAIN,
};

/// Chapters for a test, in seconds. `showInterface` is true and the limit is 15 seconds.
fn planned(chapters: &[(&str, i64, i64)], has_next: bool) -> Plan {
    Plan {
        chapters: chapters
            .iter()
            .map(|(kind, start, end)| Chapter {
                kind: (*kind).to_string(),
                start_ms: start * 1000,
                end_ms: end * 1000,
                show_interface: true,
            })
            .collect(),
        min_time_to_skip_ms: MIN_TIME_TO_SKIP_DEFAULT_MS,
        has_next,
    }
}

fn at(seconds: i64) -> i64 {
    seconds * 1000
}

#[test]
fn offers_the_main_story_inside_the_opening() {
    let plan = planned(&[("none", 0, 99), ("mainStory", 99, 1033), ("none", 1033, 1124)], true);
    assert_eq!(skip_at(&plan, at(10)), Some((SKIP_TO_MAIN, Action::Seek(99_000))));
    assert_eq!(SKIP_TO_MAIN, "本編へスキップ ▶︎");
    // No button inside the main story
    assert_eq!(skip_at(&plan, at(200)), None);
    // The ending goes to the next episode
    assert_eq!(skip_at(&plan, at(1040)), Some((NEXT_EPISODE, Action::Next)));
    assert_eq!(NEXT_EPISODE, "次の話へ ▶︎");
    // No next episode, so no button
    let last = planned(&[("none", 0, 99), ("mainStory", 99, 1033), ("none", 1033, 1124)], false);
    assert_eq!(skip_at(&last, at(1040)), None);
}

#[test]
fn never_skips_the_avant() {
    let plan = planned(
        &[("avant", 0, 196), ("none", 196, 285), ("mainStory", 285, 1358), ("none", 1358, 1447)],
        true,
    );
    // No button inside the avant
    assert_eq!(skip_at(&plan, at(100)), None);
    // Only the `none` after it (the opening) gives a button
    assert_eq!(skip_at(&plan, at(200)), Some((SKIP_TO_MAIN, Action::Seek(285_000))));
}

#[test]
fn hides_when_there_is_no_time_left_to_press() {
    let plan = planned(&[("none", 0, 3), ("mainStory", 3, 94), ("none", 94, 120)], true);
    assert_eq!(skip_at(&plan, at(1)), None);
    // Also in a long opening, the button goes at 15 seconds left
    let long = planned(&[("none", 0, 99), ("mainStory", 99, 1033), ("none", 1033, 1124)], true);
    assert!(skip_at(&long, at(83)).is_some());
    assert_eq!(skip_at(&long, at(85)), None);
}

#[test]
fn gives_up_without_chapters() {
    let empty = planned(&[], true);
    assert_eq!(skip_at(&empty, at(10)), None);
    // Only a main story (a work without chapters)
    let single = planned(&[("mainStory", 0, 1400)], true);
    assert_eq!(skip_at(&single, at(10)), None);
}

#[test]
fn a_chapter_without_the_ui_of_the_site_gives_no_button() {
    let mut plan = planned(&[("none", 0, 99), ("mainStory", 99, 1033)], true);
    plan.chapters[0].show_interface = false;
    assert_eq!(skip_at(&plan, at(10)), None);
}

#[test]
fn builds_work_url_by_dropping_the_part_number() {
    // partId = workId and three digits for the episode
    assert_eq!(work_url("28641006").as_deref(), Some("/animestore/ci_pc?workId=28641"));
    // The same rule works for a four-digit workId
    assert_eq!(work_url("9999012").as_deref(), Some("/animestore/ci_pc?workId=9999"));
    // Another form gives no link
    assert_eq!(work_url("006"), None);
    assert_eq!(work_url("28641abc"), None);
    assert_eq!(work_url(""), None);
}

#[test]
fn formats_episode_numbers() {
    // WS010105 returns only the number
    assert_eq!(episode_label(Some("6".into())).as_deref(), Some("第6話"));
    // A complete form stays
    assert_eq!(episode_label(Some("第14話".into())).as_deref(), Some("第14話"));
    // Text such as "特別編" is not removed
    assert_eq!(episode_label(Some("特別編".into())).as_deref(), Some("特別編"));
    assert_eq!(episode_label(Some("  ".into())), None);
    assert_eq!(episode_label(None), None);
}

#[test]
fn normalizes_bare_episode_numbers() {
    // Measured: some works give a bare number
    assert_eq!(episode_label(Some("6".into())).as_deref(), Some("第6話"));
    // A complete form stays
    assert_eq!(episode_label(Some("第241話".into())).as_deref(), Some("第241話"));
    assert_eq!(episode_label(Some("第十四回".into())).as_deref(), Some("第十四回"));
    assert_eq!(episode_label(Some("  ".into())), None);
    assert_eq!(episode_label(None), None);
}

#[test]
fn formats_timestamps() {
    assert_eq!(timestamp(0), "0:00");
    assert_eq!(timestamp(9_900), "0:09");
    assert_eq!(timestamp(675_260), "11:15");
    // More than one hour (a film) also shows the hours
    assert_eq!(timestamp(3_723_000), "1:02:03");
    // A negative value is not a failure
    assert_eq!(timestamp(-5_000), "0:00");
}

fn raw(kind: Option<&str>, start: Option<i64>, end: Option<i64>, show: Option<bool>) -> RawChapter {
    RawChapter {
        kind: kind.map(String::from),
        start_ms: start,
        end_ms: end,
        show_interface: show,
    }
}

#[test]
fn builds_the_plan_from_the_reply() {
    let plan = plan_from(
        vec![
            raw(Some("none"), Some(0), Some(99_000), None),
            raw(None, Some(1), Some(2), None),
            raw(Some("mainStory"), Some(99_000), None, None),
            raw(Some("mainStory"), Some(99_000), Some(1_033_000), Some(false)),
        ],
        Some(-1),
        true,
    );
    assert_eq!(plan.chapters.len(), 2);
    assert!(plan.chapters[0].show_interface);
    assert!(!plan.chapters[1].show_interface);
    assert_eq!(plan.min_time_to_skip_ms, 15_000);
    let plan = plan_from(vec![], Some(5_000), false);
    assert_eq!(plan.min_time_to_skip_ms, 5_000);
    assert!(!plan.has_next);
}

#[test]
fn finds_the_range_of_the_main_story() {
    let chapters = vec![
        raw(Some("none"), Some(0), Some(99_000), None),
        raw(Some("mainStory"), Some(99_000), Some(1_033_000), None),
    ];
    assert_eq!(main_story_range(&chapters, Some(1_124_000)), Some((99_000, 1_033_000)));
    // A main story from the start to the end is no information
    let whole = vec![raw(Some("mainStory"), Some(0), Some(1_400_000), None)];
    assert_eq!(main_story_range(&whole, Some(1_400_500)), None);
    assert_eq!(main_story_range(&whole, None), Some((0, 1_400_000)));
    // The first main story decides, also when it is broken
    let broken = vec![
        raw(Some("mainStory"), Some(5_000), Some(5_000), None),
        raw(Some("mainStory"), Some(99_000), Some(1_033_000), None),
    ];
    assert_eq!(main_story_range(&broken, None), None);
}

#[test]
fn builds_the_meta_chips() {
    let items = meta_items(Some(1_440_000), Some((99_000, 1_033_000)), Some(600_000), false);
    let views: Vec<(Option<&str>, String, Option<&str>)> =
        items.into_iter().map(|i| (i.label, i.value, i.modifier)).collect();
    assert_eq!(
        views,
        vec![
            (None, "24:00".to_string(), None),
            (Some("本編"), "1:39〜17:13".to_string(), None),
            (Some("前回"), "10:00".to_string(), Some("is-resume")),
            (None, "最新話".to_string(), Some("is-latest")),
        ]
    );
    // A stop near the end or at the start is no information
    assert!(meta_items(Some(1_440_000), None, Some(1_436_000), true).len() == 1);
    assert!(meta_items(None, None, Some(4_999), true).is_empty());
}
