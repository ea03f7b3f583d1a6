use d_tweaks::page::PageKind;

#[test]
fn detects_page_kinds_from_path() {
    assert_eq!(PageKind::from_path("/animestore/tp_pc"), PageKind::Top);
    assert_eq!(PageKind::from_path("/animestore/ci_pc"), PageKind::Work);
    assert_eq!(PageKind::from_path("/animestore/sc_d_pc"), PageKind::Player);
    assert_eq!(PageKind::from_path("/animestore/c_all_pc"), PageKind::List);
    assert_eq!(PageKind::from_path("/animestore/mp_viw_pc"), PageKind::List);
    assert_eq!(PageKind::from_path("/animestore/mpa_fav_pc"), PageKind::List);
    assert_eq!(PageKind::from_path("/animestore/mpa_cmp"), PageKind::List);
    assert_eq!(
        PageKind::from_path("/animestore/CF/search_index"),
        PageKind::Other
    );
}
