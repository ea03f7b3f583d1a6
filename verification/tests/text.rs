use d_tweaks::text::{current, init, resolve, t, t_fill, Lang, UiLanguage, WORDS};

#[test]
fn reads_the_language_of_the_setting_and_of_the_browser() {
    assert_eq!(resolve("ja", Some("en-US")), Lang::Ja);
    assert_eq!(resolve("en", Some("ja")), Lang::En);
    // `auto` follows the browser, and everything that is not English is Japanese
    assert_eq!(resolve("auto", Some("en-GB")), Lang::En);
    assert_eq!(resolve("auto", Some("ja-JP")), Lang::Ja);
    assert_eq!(resolve("auto", Some("de")), Lang::Ja);
    assert_eq!(resolve("auto", None), Lang::Ja);
}

#[test]
fn gives_the_word_of_the_language() {
    let mut ui = UiLanguage::new();
    init(&mut ui, Lang::Ja);
    assert_eq!(t(&ui, "bar.prev"), "前話");
    init(&mut ui, Lang::En);
    assert_eq!(t(&ui, "bar.prev"), "Prev");
    // A key that is not in the table is visible as itself
    assert_eq!(t(&ui, "nothing.here"), "nothing.here");
    init(&mut ui, Lang::Ja);
}

#[test]
fn every_key_appears_one_time() {
    let mut keys: Vec<&str> = WORDS.iter().map(|(key, _, _)| *key).collect();
    keys.sort_unstable();
    let count = keys.len();
    keys.dedup();
    assert_eq!(keys.len(), count, "a key is in the table twice");
}

#[test]
fn the_language_is_japanese_until_init() {
    let mut ui = UiLanguage::new();
    assert_eq!(current(&ui), Lang::Ja);
    init(&mut ui, Lang::En);
    assert_eq!(current(&ui), Lang::En);
}

#[test]
fn the_browser_tag_is_read_in_any_case() {
    assert_eq!(resolve("auto", Some("EN-us")), Lang::En);
    assert_eq!(resolve("auto", Some("e")), Lang::Ja);
    assert_eq!(resolve("", Some("en")), Lang::En);
}

#[test]
fn fills_every_hole_of_a_word() {
    let mut ui = UiLanguage::new();
    init(&mut ui, Lang::En);
    assert_eq!(t_fill(&ui, "scroll.first", &[("total", "12")]), "12 pages, showing page 1");
    init(&mut ui, Lang::Ja);
    assert_eq!(
        t_fill(&ui, "scroll.loading", &[("page", "3")]),
        "3 ページ目を読み込み中…"
    );
    // A key without a row keeps its holes filled in too
    assert_eq!(t_fill(&ui, "{a}-{a}-{b}", &[("a", "x"), ("b", "{a}")]), "x-x-{a}");
}
