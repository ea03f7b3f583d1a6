use d_tweaks::content::{card_min_width, enabled_marker, install_plan, InstallPlan};
use d_tweaks::page::PageKind;

#[test]
fn reads_the_marker_of_the_extension() {
    assert_eq!(enabled_marker(Some(" 1 ")), Some(true));
    assert_eq!(enabled_marker(Some("0")), Some(false));
    assert_eq!(enabled_marker(Some("  ")), None);
    assert_eq!(enabled_marker(None), None);
}

#[test]
fn starts_the_features_of_the_page() {
    assert_eq!(
        install_plan(PageKind::Top, false),
        InstallPlan { player_modal: true, list: false, top: true, work: false }
    );
    assert_eq!(
        install_plan(PageKind::Other, true),
        InstallPlan { player_modal: true, list: true, top: false, work: false }
    );
    assert_eq!(
        install_plan(PageKind::Player, false),
        InstallPlan { player_modal: false, list: false, top: false, work: false }
    );
    assert!(install_plan(PageKind::Work, false).work);
}

#[test]
fn writes_a_card_width_only_for_a_value() {
    assert_eq!(card_min_width("auto"), None);
    assert_eq!(card_min_width(""), None);
    assert_eq!(card_min_width("220px").as_deref(), Some("220px"));
}
