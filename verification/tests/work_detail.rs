use d_tweaks::work_detail::{detail_paragraph, genre_text, parse_pair, split_top_level, strip_prefix_label};

#[test]
fn splits_only_outside_brackets() {
    // Real data. The separator inside the brackets must not split.
    let text = "原作:著者名「原作タイトル」（レーベル／出版社刊）／キャラクターデザイン:担当者名";
    let parts = split_top_level(text, '／');
    assert_eq!(parts.len(), 2);
    assert!(parts[0].contains("レーベル／出版社刊"));
    assert_eq!(parts[1], "キャラクターデザイン:担当者名");
}

#[test]
fn splits_plain_items() {
    let parts = split_top_level("ビクトリア・セラーズ:安済知佳／ノンナ:若山詩音", '／');
    assert_eq!(parts, vec!["ビクトリア・セラーズ:安済知佳", "ノンナ:若山詩音"]);
    // A separator at the end gives no empty item
    assert_eq!(split_top_level("A／B／", '／'), vec!["A", "B"]);
    // A bracket without its pair does not break the split
    assert_eq!(split_top_level("（開いたまま／B", '／'), vec!["（開いたまま／B"]);
}

#[test]
fn parses_role_and_name() {
    assert_eq!(
        parse_pair("ビクトリア・セラーズ:安済知佳"),
        (Some("ビクトリア・セラーズ".into()), "安済知佳".into())
    );
    // A full-width colon also works (the staff of .tagArea uses it)
    assert_eq!(
        parse_pair("アニメーション制作：スタジオディーン"),
        (Some("アニメーション制作".into()), "スタジオディーン".into())
    );
    // Without a pair, only the value
    assert_eq!(parse_pair("原作タイトルシリーズ"), (None, "原作タイトルシリーズ".into()));
    // A colon inside brackets does not split
    assert_eq!(parse_pair("原作:著者名「A:B」"), (Some("原作".into()), "著者名「A:B」".into()));
}

#[test]
fn strips_section_labels() {
    assert_eq!(
        strip_prefix_label("[キャスト] ビクトリア:安済知佳", "キャスト").as_deref(),
        Some("ビクトリア:安済知佳")
    );
    assert_eq!(strip_prefix_label("[スタッフ] 原作:著者名", "キャスト"), None);
    assert_eq!(strip_prefix_label("©著者名/レーベル", "キャスト"), None);
}

#[test]
fn a_closing_bracket_without_its_pair_keeps_the_depth_at_zero() {
    assert_eq!(split_top_level("A）／B", '／'), vec!["A）", "B"]);
    assert_eq!(split_top_level("  ／ ／  ", '／'), Vec::<String>::new());
}

#[test]
fn a_colon_without_a_label_or_a_value_is_not_a_separator() {
    assert_eq!(parse_pair(":名前"), (None, ":名前".into()));
    assert_eq!(parse_pair(" 役: "), (None, "役:".into()));
    assert_eq!(parse_pair(":役:名前"), (Some(":役".into()), "名前".into()));
}

#[test]
fn reads_the_paragraphs_of_the_cast_block() {
    let cast = detail_paragraph("  [キャスト]A：声優A／B：声優B ");
    assert_eq!(cast.blocks.len(), 1);
    assert_eq!(cast.blocks[0].0, "キャスト");
    assert_eq!(cast.blocks[0].1, vec!["A：声優A".to_string(), "B：声優B".to_string()]);
    assert!(!cast.copyright);
    let note = detail_paragraph(" ©作品製作委員会 ");
    assert!(note.blocks.is_empty());
    assert!(note.copyright);
    assert!(detail_paragraph("[スタッフ]").blocks.is_empty());
    assert_eq!(detail_paragraph("[製作年]2024年").blocks[0].0, "製作年");
}

#[test]
fn spaces_the_slashes_of_a_genre() {
    assert_eq!(genre_text("SF/ファンタジー"), "SF / ファンタジー");
    assert_eq!(genre_text("アクション"), "アクション");
}
