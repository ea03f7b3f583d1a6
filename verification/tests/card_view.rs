use d_tweaks::card_view::{
    card_from, link_of, part_id_of_anchor, resize_thumb, thumb_setting, url_for, width_value, CardFields,
    CardIcon, Link,
};

/// The size that the setting gives by default.
const DEFAULT_SIZE: Option<&str> = Some("1");

fn parse_width(style: &str) -> Option<String> {
    // The number must be above zero: 0% means that nobody started the episode
    width_value(style)
        .filter(|(_, number)| number.parse::<f64>().map(|n| n > 0.0).unwrap_or(false))
        .map(|(value, _)| value)
}

#[test]
fn resizes_thumbnail_size_suffix() {
    // The 208px of the complete list becomes 640px. The query stays.
    assert_eq!(
        resize_thumb("https://cs1.example/anime/1a6F5A/28790_1_6.png?1774855808677=", None, DEFAULT_SIZE),
        Some("https://cs1.example/anime/1a6F5A/28790_1_1.png?1774855808677=".into())
    );
    // The 288px of the other pages also changes
    assert_eq!(
        resize_thumb("https://cs1.example/anime/AoZY1Q/29056006_1_2.png", None, DEFAULT_SIZE),
        Some("https://cs1.example/anime/AoZY1Q/29056006_1_1.png".into())
    );
    // No change when the size is already correct
    assert_eq!(resize_thumb("https://cs1.example/a/28790_1_1.png", None, DEFAULT_SIZE), None);
    // No size, or a size that is not a number: no change
    assert_eq!(resize_thumb("https://cs1.example/a/keyvisual.png", None, DEFAULT_SIZE), None);
    assert_eq!(resize_thumb("https://cs1.example/a/28790_1_x.png", None, DEFAULT_SIZE), None);
    assert_eq!(resize_thumb("https://cs1.example/a/noextension", None, DEFAULT_SIZE), None);
}

#[test]
fn the_setting_off_wins_over_the_size_of_the_card() {
    assert_eq!(resize_thumb("https://cs1.example/a/28790_1_2.png", Some("6"), None), None);
    assert_eq!(
        resize_thumb("https://cs1.example/a/28790_1_2.png", Some("6"), Some("1")),
        Some("https://cs1.example/a/28790_1_6.png".into())
    );
    assert_eq!(thumb_setting("1").as_deref(), Some("1"));
    assert_eq!(thumb_setting("off"), None);
    assert_eq!(thumb_setting(""), None);
}

#[test]
fn parses_progress_width_and_treats_zero_as_absent() {
    assert_eq!(parse_width("width: 94%;"), Some("94%".into()));
    assert_eq!(parse_width("width:100%"), Some("100%".into()));
    assert_eq!(parse_width("width: 0.5%;"), Some("0.5%".into()));
    // An episode that nobody started has 0%, and gets no progress bar
    assert_eq!(parse_width("width: 0%;"), None);
    assert_eq!(parse_width("width:0"), None);
    // No width, or a broken value
    assert_eq!(parse_width("color: red;"), None);
    assert_eq!(parse_width("width:"), None);
    assert_eq!(parse_width(""), None);
}

#[test]
fn reads_the_number_of_the_width() {
    assert_eq!(width_value("width: 94%;"), Some(("94%".into(), "94".into())));
    assert_eq!(width_value("max-width: 5px"), Some(("5px".into(), "5".into())));
    assert_eq!(width_value("width 5px"), None);
}

#[test]
fn builds_the_destination_of_a_card() {
    let play = link_of(Some("28641".into()), Some("28641006".into())).unwrap();
    assert_eq!(play.main_href(), "/animestore/sc_d_pc?partId=28641006");
    let work = link_of(Some("28641".into()), None).unwrap();
    assert_eq!(work.main_href(), "/animestore/ci_pc?workId=28641");
    assert!(link_of(None, None).is_none());
    assert!(matches!(link_of(None, Some("1".into())), Some(Link::Play { work_id: None, .. })));
    assert_eq!(Link::External("/x".into()).main_href(), "/x");
    assert_eq!(url_for("c_all_pc", &[("a", "1"), ("b", "2")]), "/animestore/c_all_pc?a=1&b=2");
}

#[test]
fn reads_the_part_id_of_an_episode_anchor() {
    assert_eq!(part_id_of_anchor("episodePartId25713011"), Some("25713011".to_string()));
    assert_eq!(part_id_of_anchor("episodePartId"), None);
    assert_eq!(part_id_of_anchor("episode25713011"), None);
    assert_eq!(part_id_of_anchor(""), None);
}

fn fields() -> CardFields {
    CardFields {
        work_id: Some("25713".to_string()),
        part_id: None,
        header_title: None,
        work_line: None,
        second_line: Some("作品A".to_string()),
        episode_line: None,
        number: None,
        data_src: Some("https://cs1.example/thumb_1.png".to_string()),
        src: Some("https://example/lazySpace.gif".to_string()),
        watched: false,
        progress_width: None,
        icon_classes: vec!["icon iconTextNew".to_string(), "icon other".to_string()],
        options: vec!["  吹替  ".to_string(), "   ".to_string(), "字幕".to_string()],
    }
}

#[test]
fn reads_a_card_without_a_header() {
    let card = card_from(fields());
    assert_eq!(card.work.as_deref(), Some("作品A"));
    assert_eq!(card.title, None);
    assert_eq!(card.thumb.as_deref(), Some("https://cs1.example/thumb_1.png"));
    assert!(matches!(card.link, Some(Link::Work { ref work_id }) if work_id == "25713"));
    assert_eq!(card.icons, vec![CardIcon::New]);
    assert_eq!(card.options, vec!["吹替".to_string(), "字幕".to_string()]);
    assert_eq!(card.progress, None);
}

#[test]
fn reads_a_card_with_a_header() {
    let mut f = fields();
    f.header_title = Some("作品B".to_string());
    f.part_id = Some("25713001".to_string());
    f.data_src = Some(String::new());
    f.watched = true;
    f.icon_classes = vec!["icon iconTextComplete".to_string()];
    let card = card_from(f);
    assert_eq!(card.work.as_deref(), Some("作品B"));
    assert_eq!(card.title.as_deref(), Some("作品A"));
    assert_eq!(card.thumb, None);
    assert_eq!(card.progress.as_deref(), Some("100%"));
    assert_eq!(card.icons, vec![CardIcon::Complete]);
    assert!(matches!(card.link, Some(Link::Play { ref part_id, .. }) if part_id == "25713001"));
}
