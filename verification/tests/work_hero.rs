use d_tweaks::work_hero::{key_visual_source, upgrade_key_visual};

#[test]
fn upgrades_key_visual_to_the_largest_size() {
    // With a hash (the form after lazyload)
    assert_eq!(
        upgrade_key_visual("https://cs1.example/a/29056_1_9_8b.png"),
        Some("https://cs1.example/a/29056_1_10_8b.png".into())
    );
    // Without a hash (the form of data-src). The query stays.
    assert_eq!(
        upgrade_key_visual("https://cs1.example/a/29056_1_3.png?1780461308349"),
        Some("https://cs1.example/a/29056_1_10.png?1780461308349".into())
    );
    // The largest size gives the same URL again, which does no harm
    assert_eq!(
        upgrade_key_visual("https://cs1.example/a/29056_1_10.png"),
        Some("https://cs1.example/a/29056_1_10.png".into())
    );
    // An unknown form is not changed
    assert_eq!(upgrade_key_visual("https://cs1.example/a/keyvisual.png"), None);
    assert_eq!(upgrade_key_visual("https://cs1.example/a/29056_1_x.png"), None);
    assert_eq!(upgrade_key_visual("no-slash.png"), None);
}

#[test]
fn takes_the_data_src_of_a_lazy_key_visual() {
    let s = |v: &str| Some(v.to_string());
    assert_eq!(key_visual_source(s("a_1.png"), s("b_1.png")), s("a_1.png"));
    assert_eq!(key_visual_source(s("/lazySpace.gif"), s("b_1.png")), s("b_1.png"));
    assert_eq!(key_visual_source(s(""), s("b_1.png")), s("b_1.png"));
    assert_eq!(key_visual_source(None, s("")), None);
    assert_eq!(key_visual_source(None, None), None);
}
