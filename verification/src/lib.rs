//! Verified core of the d-tweaks browser extension.

pub mod chars;
pub mod matching;
pub mod nicovideo;
pub mod page;
pub mod settings;
pub mod text;
pub mod cache;
pub mod work_detail;
pub mod clock;
pub mod comments;
pub mod player_meta;
pub mod card_view;
pub mod work_hero;
pub mod top_page;
pub mod danmaku;
pub mod service;
pub mod search_overlay;
pub mod infinite_scroll;
pub mod content;
pub mod niconico;
pub mod order;
