use d_tweaks::comments::{
    comment_target, current_part_id, status_key, LoadOutcome, part_info_from, pin_fields, reply_kind, CommentSession, LoadRequest, ReplyKind,
};

#[test]
fn a_newer_load_makes_the_older_one_old() {
    let mut session = CommentSession::new();
    let first = session.begin("28641006".to_string());
    let second = session.begin("28641007".to_string());
    assert_ne!(first, second);
    assert!(!session.is_current(first));
    assert!(session.is_current(second));
    assert_eq!(session.part_id, "28641007");
}

#[test]
fn the_generation_of_a_load_wraps() {
    let mut session = CommentSession { part_id: String::new(), generation: u32::MAX };
    assert_eq!(session.begin("1".to_string()), 0);
}

#[test]
fn finds_the_episode_on_the_screen() {
    assert_eq!(current_part_id("1", Some("2".into()), "3"), "1");
    assert_eq!(current_part_id("", Some("2".into()), "3"), "2");
    assert_eq!(current_part_id("", None, "3"), "3");
}

#[test]
fn reads_the_episode_for_the_match() {
    let info = part_info_from(Some("作品A".into()), Some("6".into()), Some(" ".into()), Some(0)).unwrap();
    assert_eq!(info.work, "作品A");
    assert_eq!(info.label.as_deref(), Some("第6話"));
    assert_eq!(info.title, None);
    assert_eq!(info.duration, None);
    let info = part_info_from(Some("作品A".into()), None, Some("題".into()), Some(1420)).unwrap();
    assert_eq!(info.title.as_deref(), Some("題"));
    assert_eq!(info.duration, Some(1420));
    // Without a work title there is no search
    assert!(part_info_from(Some("  ".into()), Some("6".into()), None, None).is_none());
    assert!(part_info_from(None, None, None, None).is_none());
}

#[test]
fn asks_for_the_video_of_the_user_or_forgets_it() {
    assert_eq!(pin_fields(&LoadRequest::Pin("sm9".into())), (Some("sm9".into()), false));
    assert_eq!(pin_fields(&LoadRequest::Unpin), (None, true));
    assert_eq!(pin_fields(&LoadRequest::Auto), (None, false));
}

#[test]
fn reads_the_kind_of_a_reply() {
    assert_eq!(reply_kind(Some(true), Some(true)), ReplyKind::Comments);
    assert_eq!(reply_kind(Some(false), Some(true)), ReplyKind::NotFound);
    assert_eq!(reply_kind(None, None), ReplyKind::Failure);
}

#[test]
fn the_card_fills_what_the_episode_data_lacks() {
    let info = part_info_from(Some("作品A".to_string()), None, Some("題".to_string()), Some(1420));
    let found = comment_target(info, Some("カード".to_string()), Some("第3話".to_string())).unwrap();
    assert_eq!(found.work, "作品A");
    assert_eq!(found.label.as_deref(), Some("第3話"));
    assert_eq!(found.title.as_deref(), Some("題"));
    assert_eq!(found.duration, Some(1420));
    let info = part_info_from(Some("作品A".to_string()), Some("6".to_string()), None, None);
    let found = comment_target(info, None, Some("第3話".to_string())).unwrap();
    assert_eq!(found.label.as_deref(), Some("第6話"));
    let found = comment_target(None, Some("カード".to_string()), None).unwrap();
    assert_eq!(found.work, "カード");
    assert_eq!(found.title, None);
    assert!(comment_target(None, None, Some("第3話".to_string())).is_none());
}

#[test]
fn each_outcome_has_its_status_text() {
    assert_eq!(status_key(LoadOutcome::NoWork), "comments.no_work");
    assert_eq!(status_key(LoadOutcome::NotSent), "comments.failed");
    assert_eq!(status_key(LoadOutcome::Found), "comments.count");
    assert_eq!(status_key(LoadOutcome::NotFound), "comments.not_found");
    assert_eq!(status_key(LoadOutcome::Failed), "comments.error");
    assert_eq!(status_key(LoadOutcome::NoReply), "comments.no_reply");
}
