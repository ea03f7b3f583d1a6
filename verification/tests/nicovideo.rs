use d_tweaks::nicovideo::video_id_from;

/// A real id of an episode on a channel. Every test uses the same one.
const SAMPLE: &str = "so46649112";

#[test]
fn reads_the_address_of_a_video() {
    assert_eq!(
        video_id_from("https://www.nicovideo.jp/watch/so46649112").as_deref(),
        Some(SAMPLE)
    );
    assert_eq!(
        video_id_from("https://www.nicovideo.jp/watch/so46649112?ref=share&cp_in=watch")
            .as_deref(),
        Some(SAMPLE)
    );
    assert_eq!(
        video_id_from("https://sp.nicovideo.jp/watch/sm9").as_deref(),
        Some("sm9")
    );
    assert_eq!(
        video_id_from("https://nico.ms/so46649112").as_deref(),
        Some(SAMPLE)
    );
    assert_eq!(
        video_id_from("https://www.nicovideo.jp/watch/1173108780").as_deref(),
        Some("1173108780")
    );
    assert_eq!(
        video_id_from("https://www.nicovideo.jp/watch/so46649112/#comment").as_deref(),
        Some(SAMPLE)
    );
}

#[test]
fn reads_the_id_alone() {
    assert_eq!(video_id_from("so46649112").as_deref(), Some(SAMPLE));
    assert_eq!(video_id_from("  sm9  ").as_deref(), Some("sm9"));
    assert_eq!(video_id_from("SO46649112").as_deref(), Some(SAMPLE));
}

#[test]
fn refuses_what_is_not_a_video() {
    assert_eq!(video_id_from(""), None);
    assert_eq!(video_id_from("   "), None);
    assert_eq!(video_id_from("https://www.nicovideo.jp/"), None);
    assert_eq!(video_id_from("https://www.nicovideo.jp/user/12345/video"), None);
    assert_eq!(video_id_from("watch"), None);
    assert_eq!(video_id_from("so"), None);
    assert_eq!(video_id_from("1234567890123"), None);
    assert_eq!(video_id_from("abcd1234"), None);
}

#[test]
fn refuses_addresses_of_users_and_lists() {
    assert_eq!(video_id_from("https://www.nicovideo.jp/user/12345"), None);
    assert_eq!(video_id_from("https://www.nicovideo.jp/mylist/123"), None);
    assert_eq!(video_id_from("https://example.com/watch/sm9"), None);
    assert_eq!(video_id_from("https://evil.example/nicovideo.jp/watch/sm9"), None);
    assert_eq!(video_id_from("nico.ms/sm9").as_deref(), Some("sm9"));
    assert_eq!(video_id_from("www.nicovideo.jp/watch/sm9").as_deref(), Some("sm9"));
    assert_eq!(video_id_from("HTTPS://WWW.NICOVIDEO.JP/WATCH/SM9").as_deref(), Some("sm9"));
}

#[test]
fn an_accepted_id_reads_back() {
    for id in ["sm9", "so46649112", "1173108780"] {
        assert_eq!(video_id_from(id).as_deref(), Some(id));
        assert_eq!(video_id_from(&id.to_ascii_uppercase()).as_deref(), Some(id));
        assert_eq!(
            video_id_from(&format!("https://www.nicovideo.jp/watch/{id}")).as_deref(),
            Some(id)
        );
    }
}
