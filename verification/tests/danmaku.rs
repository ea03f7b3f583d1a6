use d_tweaks::danmaku::{
    color_of, first_free_lane, network_state_name, one_line, position_of, ready_state_name, size_of, Position, Size,
};

#[test]
fn reads_display_commands() {
    let commands = vec!["red".to_string(), "big".to_string(), "ue".to_string()];
    assert_eq!(color_of(&commands), "#ff0000");
    assert_eq!(size_of(&commands), Size::Big);
    assert!(matches!(position_of(&commands), Position::Ue));

    // No command: white, normal size, moving
    let plain: Vec<String> = Vec::new();
    assert_eq!(color_of(&plain), "#ffffff");
    assert_eq!(size_of(&plain), Size::Medium);
    assert!(matches!(position_of(&plain), Position::Naka));
}

#[test]
fn accepts_hex_colors_but_rejects_broken_ones() {
    assert_eq!(color_of(&["#12ab34".to_string()]), "#12ab34");
    // Too few digits, or not hexadecimal, is not a colour
    assert_eq!(color_of(&["#12ab3".to_string()]), "#ffffff");
    assert_eq!(color_of(&["#gggggg".to_string()]), "#ffffff");
    // A command that is not a colour is skipped
    assert_eq!(color_of(&["184".to_string(), "green".to_string()]), "#00ff00");
}

#[test]
fn reads_premium_colours_and_the_first_command_wins() {
    assert_eq!(color_of(&["truered".to_string()]), "#cc0033");
    assert_eq!(color_of(&["niconicoblack".to_string(), "red".to_string()]), "#666666");
    assert_eq!(size_of(&["small".to_string(), "big".to_string()]), Size::Small);
    assert_eq!(position_of(&["shita".to_string(), "ue".to_string()]), Position::Shita);
}

#[test]
fn flattens_a_comment_to_one_line() {
    assert_eq!(one_line("a\nb\r\nc"), "a b  c");
}

#[test]
fn names_the_states_of_the_video() {
    assert_eq!(ready_state_name(4), "十分");
    assert_eq!(ready_state_name(9), "不明");
    assert_eq!(network_state_name(2), "読み込み中");
    assert_eq!(network_state_name(7), "不明");
}

#[test]
fn finds_the_first_run_of_free_lanes() {
    let free = vec![false, true, false, true, true, true];
    assert_eq!(first_free_lane(&free, 1), Some(1));
    assert_eq!(first_free_lane(&free, 2), Some(3));
    assert_eq!(first_free_lane(&free, 3), Some(3));
    assert_eq!(first_free_lane(&free, 4), None);
    assert_eq!(first_free_lane(&vec![false; 16], 1), None);
    assert_eq!(first_free_lane(&vec![true; 16], 16), Some(0));
}
