use d_tweaks::top_page::{
    episode_label, is_rental, is_rental_section, item_href, rental_fresh, role_of, shown_count,
    slide_tick, usable_thumb, Role,
};

#[test]
fn uses_the_sites_label_when_it_is_usable() {
    // A usable form
    assert_eq!(
        episode_label(Some("第6話".into()), Some("28641"), Some("28641006")),
        Some("第6話".into())
    );
    // Only the number (measured)
    assert_eq!(
        episode_label(Some("6".into()), Some("28641"), Some("28641006")),
        Some("第6話".into())
    );
}

#[test]
fn falls_back_to_part_id_when_the_label_is_broken() {
    // The site cut "Episode 12" from the left (the real DOM value)
    assert_eq!(
        episode_label(Some("...sode 12".into()), Some("28915"), Some("28915012")),
        Some("第12話".into())
    );
    // Without a label, the partId is enough
    assert_eq!(episode_label(None, Some("26311"), Some("26311136")), Some("第136話".into()));
}

#[test]
fn gives_up_when_there_is_nothing_to_go_on() {
    // No partId (a card that goes to a work page)
    assert_eq!(episode_label(None, Some("29008"), None), None);
    // The partId does not start with the workId (the form changed)
    assert_eq!(episode_label(None, Some("11111"), Some("28915012")), None);
    // The episode number is only zeros
    assert_eq!(episode_label(None, Some("28915"), Some("28915000")), None);
}

#[test]
fn finds_the_role_of_a_section() {
    assert_eq!(role_of("今期放送中の作品"), Role::OnAir);
    assert_eq!(role_of("ランキング"), Role::Ranking);
    assert_eq!(role_of("新着"), Role::Browse);
}

#[test]
fn shows_all_when_only_a_few_would_be_left() {
    assert_eq!(shown_count(15, 12), 15);
    assert_eq!(shown_count(16, 12), 12);
    assert_eq!(shown_count(5, 12), 5);
}

#[test]
fn leaves_out_the_rentals_only_with_an_answer() {
    let ids = vec!["28641".to_string()];
    assert!(is_rental(Some(&ids), "28641"));
    assert!(!is_rental(Some(&ids), "1"));
    assert!(!is_rental(None, "28641"));
    assert!(is_rental_section(Some("rental"), None));
    assert!(is_rental_section(None, Some("レンタル作品")));
    assert!(!is_rental_section(Some("x"), Some("新着")));
    assert!(rental_fresh(Some(0)));
    assert!(!rental_fresh(Some(86_400_000)));
    assert!(!rental_fresh(None));
}

#[test]
fn finds_the_destination_of_an_item() {
    assert_eq!(item_href(Some("/a".into()), Some("/b".into()), None).as_deref(), Some("/a"));
    assert_eq!(item_href(Some(" ".into()), Some("/b".into()), None).as_deref(), Some("/b"));
    assert_eq!(item_href(None, Some("".into()), Some("javascript:void(0)".into())), None);
    assert_eq!(item_href(None, None, Some("/c".into())).as_deref(), Some("/c"));
    assert_eq!(usable_thumb(Some("/img/lazySpace.gif".into())), None);
    assert_eq!(usable_thumb(Some("/img/a.png".into())).as_deref(), Some("/img/a.png"));
}

#[test]
fn the_showcase_advances_after_the_interval() {
    assert_eq!(slide_tick(3, true, 2, 10), (3, None));
    assert_eq!(slide_tick(0, false, 2, 10), (1, None));
    assert_eq!(slide_tick(6, false, 2, 10), (7, None));
    assert_eq!(slide_tick(7, false, 2, 10), (0, Some(3)));
    assert_eq!(slide_tick(7, false, 9, 10), (0, Some(0)));
    assert_eq!(slide_tick(7, false, 0, 1), (0, Some(0)));
}
