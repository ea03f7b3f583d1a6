use d_tweaks::settings::{
    choice_def, choice_from, choices, defaults, exclude_matches, extension_enabled_from,
    feature_on, features, features_from, invalidate, script_id, snapshot_of, switch_def,
    switch_from, switches, SettingsCache, Stored, StoredValue,
};

fn stored(entries: Vec<(&str, StoredValue)>) -> Stored {
    Stored { entries: entries.into_iter().map(|(k, v)| (k.to_string(), v)).collect() }
}

#[test]
fn every_feature_has_its_registration_id() {
    assert_eq!(script_id("list-grid"), "dt-list-grid");
    let table = features();
    assert_eq!(table.len(), 11);
    assert_eq!(table[0].id, "list-grid");
    assert_eq!(table[0].css, vec!["styles/list-grid.css"]);
    assert!(table[9].css.is_empty());
    assert_eq!(switches().len(), 3);
    assert_eq!(choices().len(), 5);
    assert_eq!(d_tweaks::settings::matches(), vec!["https://animestore.docomo.ne.jp/animestore/*"]);
    assert_eq!(exclude_matches().len(), 2);
}

#[test]
fn finds_the_definition_of_a_setting() {
    let fps = choice_def("danmaku-fps").unwrap();
    assert_eq!(fps.default, "30");
    assert_eq!(fps.options.iter().map(|(v, _)| *v).collect::<Vec<_>>(), vec!["24", "30", "48", "60"]);
    assert!(choice_def("nothing").is_none());
    assert!(switch_def("player-skip").unwrap().default);
    assert!(switch_def("nothing").is_none());
}

#[test]
fn a_setting_that_was_never_written_reads_as_its_default() {
    let empty = stored(vec![]);
    assert_eq!(choice_from(Some(&empty), "danmaku-duration"), "4");
    assert_eq!(choice_from(None, "thumb-size"), "1");
    assert_eq!(choice_from(None, "nothing"), "");
    assert!(switch_from(Some(&empty), "search-no-rental"));
    assert!(extension_enabled_from(None));
    assert!(feature_on(Some(&empty), "comments"));
    assert!(feature_on(None, "comments"));
}

#[test]
fn a_written_setting_is_read_back() {
    let s = stored(vec![
        ("danmaku-fps", StoredValue::Text("60".into())),
        ("enabled", StoredValue::Flag(false)),
        ("comments", StoredValue::Flag(false)),
        ("player-skip", StoredValue::Other),
        ("search-shortcuts", StoredValue::Flag(false)),
    ]);
    assert_eq!(choice_from(Some(&s), "danmaku-fps"), "60");
    assert!(!extension_enabled_from(Some(&s)));
    assert!(!feature_on(Some(&s), "comments"));
    assert!(feature_on(Some(&s), "list-grid"));
    // An unreadable value gives the default
    assert!(switch_from(Some(&s), "player-skip"));
    assert!(!switch_from(Some(&s), "search-shortcuts"));
    let on = features_from(&s);
    assert_eq!(on.len(), 11);
    assert!(!on[9]);
    assert!(on[0]);
}

#[test]
fn a_snapshot_holds_every_setting() {
    let s = stored(vec![("card-min-width", StoredValue::Text("220px".into())), ("list-grid", StoredValue::Flag(false))]);
    let snap = snapshot_of(&s);
    assert!(snap.enabled);
    assert!(!snap.features[0]);
    assert_eq!(snap.switches, vec![true, true, true]);
    assert_eq!(snap.choices, vec!["30", "4", "4", "220px", "1"]);
}

#[test]
fn the_defaults_read_as_the_defaults() {
    let d = defaults();
    assert_eq!(d.len(), 20);
    let s = Stored { entries: d.into_iter().map(|(k, v)| (k.to_string(), v)).collect() };
    assert_eq!(choice_from(Some(&s), "search-sort"), "4");
    assert!(extension_enabled_from(Some(&s)));
    assert!(features_from(&s).iter().all(|on| *on));
}

#[test]
fn an_invalidated_copy_is_read_again() {
    let mut cache = SettingsCache::new();
    assert!(cache.cached().is_none());
    cache.remember(stored(vec![]));
    assert!(cache.cached().is_some());
    invalidate(&mut cache);
    assert!(cache.cached().is_none());
}
