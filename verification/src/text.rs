//! The words of the own UI, in Japanese and in English.
//!
//! The language is a setting of this extension, not the one of the browser: a user of
//! the service can have an English browser and still want Japanese words, or the other
//! way round.
//!
//! `WORDS` holds every word of the own UI. A key that is not in the table gives the key
//! itself, which is visible at once, and a missing English word gives the Japanese one,
//! so a table with some English words missing still works.
//!
//! The language is read one time and kept in a `UiLanguage`, because the words are
//! asked for by the drawing code, which is not async.

use vstd::prelude::*;

use crate::chars;

verus! {

/// The language of the own UI.
#[derive(Clone, Copy, PartialEq, Eq, Debug, Structural)]
pub enum Lang {
    Ja,
    En,
}

/// The language of one page. `Ja` until `init` runs.
pub struct UiLanguage {
    pub lang: Lang,
}

impl UiLanguage {
    /// The language of a page before `init`.
    pub fn new() -> (ui: UiLanguage)
        ensures
            ui.lang == Lang::Ja,
    {
        UiLanguage { lang: Lang::Ja }
    }
}

/// Set the language for this page. Call it before anything is drawn.
pub fn init(ui: &mut UiLanguage, lang: Lang)
    ensures
        final(ui).lang == lang,
{
    ui.lang = lang;
}

/// The language of this page.
pub fn current(ui: &UiLanguage) -> (r: Lang)
    ensures
        r == ui.lang,
{
    ui.lang
}

/// The language of a setting value: `ja`, `en`, or `auto` from the browser.
///
/// For `auto` (and any other value), a browser language whose tag starts with `en`,
/// in any case, gives English; anything else gives Japanese, the language of the
/// service.
pub open spec fn resolved(setting: Seq<char>, browser_language: Option<Seq<char>>) -> Lang {
    if setting == "ja"@ {
        Lang::Ja
    } else if setting == "en"@ {
        Lang::En
    } else {
        match browser_language {
            Some(tag) => if chars::has_prefix(chars::ascii_lower(tag), "en"@) {
                Lang::En
            } else {
                Lang::Ja
            },
            None => Lang::Ja,
        }
    }
}

/// The language of a setting value: `ja`, `en`, or `auto` from the browser.
pub fn resolve(setting: &str, browser_language: Option<&str>) -> (r: Lang)
    ensures
        r == resolved(
            setting@,
            match browser_language {
                Some(tag) => Some(tag@),
                None => None,
            },
        ),
{
    let s = chars::chars_of(setting);
    let ja = chars::chars_of("ja");
    let en = chars::chars_of("en");
    proof {
        reveal_strlit("ja");
        reveal_strlit("en");
    }
    if chars::same_chars(s.as_slice(), ja.as_slice()) {
        return Lang::Ja;
    }
    if chars::same_chars(s.as_slice(), en.as_slice()) {
        return Lang::En;
    }
    match browser_language {
        Some(tag) => {
            let lower = chars::to_ascii_lower(chars::chars_of(tag).as_slice());
            if chars::starts_with(lower.as_slice(), en.as_slice()) {
                Lang::En
            } else {
                Lang::Ja
            }
        },
        None => Lang::Ja,
    }
}

/// The first row of `WORDS` from `k` on whose key is `key`.
pub open spec fn word_row_from(key: Seq<char>, k: nat) -> Option<int>
    decreases WORDS@.len() - k,
{
    if k >= WORDS@.len() {
        None
    } else if WORDS@[k as int].0@ == key {
        Some(k as int)
    } else {
        word_row_from(key, k + 1)
    }
}

/// The word of `key` in `lang`: the Japanese one, or the English one where it is not
/// empty; the key itself for a key that is not in the table.
pub open spec fn word_of(lang: Lang, key: Seq<char>) -> Seq<char> {
    match word_row_from(key, 0) {
        Some(i) => match lang {
            Lang::Ja => WORDS@[i].1@,
            Lang::En => if WORDS@[i].2@.len() > 0 {
                WORDS@[i].2@
            } else {
                WORDS@[i].1@
            },
        },
        None => key,
    }
}

/// The word of `key` in the language of this page.
pub fn t(ui: &UiLanguage, key: &str) -> (r: String)
    ensures
        r@ == word_of(ui.lang, key@),
{
    let wanted = chars::chars_of(key);
    let mut k: usize = 0;
    while k < WORDS.len()
        invariant
            k <= WORDS@.len(),
            wanted@ == key@,
            word_row_from(key@, 0) == word_row_from(key@, k as nat),
        decreases WORDS@.len() - k,
    {
        let row = WORDS[k];
        let id = chars::chars_of(row.0);
        if chars::same_chars(id.as_slice(), wanted.as_slice()) {
            let word = match ui.lang {
                Lang::Ja => row.1,
                Lang::En => {
                    if chars::chars_of(row.2).len() > 0 {
                        row.2
                    } else {
                        row.1
                    }
                },
            };
            return chars::string_of(chars::chars_of(word).as_slice());
        }
        k += 1;
    }
    chars::string_of(wanted.as_slice())
}

/// `s` with every occurrence of `pattern` replaced by `value`, from left to right and
/// without overlaps.
pub open spec fn replaced(s: Seq<char>, pattern: Seq<char>, value: Seq<char>) -> Seq<char>
    decreases s.len(),
{
    if pattern.len() == 0 || s.len() < pattern.len() {
        s
    } else if s.subrange(0, pattern.len() as int) == pattern {
        value + replaced(s.subrange(pattern.len() as int, s.len() as int), pattern, value)
    } else {
        seq![s[0]] + replaced(s.subrange(1, s.len() as int), pattern, value)
    }
}

/// The hole of the name `name`: `{name}`.
pub open spec fn hole(name: Seq<char>) -> Seq<char> {
    seq!['{'] + name + seq!['}']
}

/// `text` with the holes of `values` filled in, the first pair first.
pub open spec fn filled(text: Seq<char>, values: Seq<(Seq<char>, Seq<char>)>) -> Seq<char>
    decreases values.len(),
{
    if values.len() == 0 {
        text
    } else {
        filled(
            replaced(text, hole(values[0].0), values[0].1),
            values.subrange(1, values.len() as int),
        )
    }
}

/// The views of the pairs of `t_fill`.
pub open spec fn pair_views(values: Seq<(&str, &str)>) -> Seq<(Seq<char>, Seq<char>)> {
    values.map_values(|p: (&str, &str)| (p.0@, p.1@))
}

/// `s` with every occurrence of `pattern` replaced by `value`.
fn replace_all(s: &[char], pattern: &[char], value: &[char]) -> (out: Vec<char>)
    requires
        pattern@.len() > 0,
    ensures
        out@ == replaced(s@, pattern@, value@),
{
    let mut out: Vec<char> = Vec::new();
    let mut i: usize = 0;
    proof {
        assert(s@.subrange(0, s@.len() as int) =~= s@);
    }
    while i < s.len()
        invariant
            i <= s@.len(),
            pattern@.len() > 0,
            out@ + replaced(s@.subrange(i as int, s@.len() as int), pattern@, value@)
                == replaced(s@, pattern@, value@),
        decreases s@.len() - i,
    {
        let ghost rest = s@.subrange(i as int, s@.len() as int);
        if s.len() - i >= pattern.len() && chars::matches_at(s, pattern, i) {
            proof {
                assert(rest.subrange(0, pattern@.len() as int) =~= pattern@);
                assert(rest.subrange(pattern@.len() as int, rest.len() as int)
                    =~= s@.subrange(i + pattern@.len(), s@.len() as int));
            }
            out = chars::concat(out.as_slice(), value);
            i += pattern.len();
        } else {
            proof {
                if rest.len() >= pattern@.len() {
                    assert(rest.subrange(0, pattern@.len() as int) != pattern@) by {
                        if rest.subrange(0, pattern@.len() as int) == pattern@ {
                            assert(chars::occurs_at(s@, pattern@, i as int));
                        }
                    }
                }
                assert(rest.subrange(1, rest.len() as int) =~= s@.subrange(i + 1, s@.len() as int));
            }
            out.push(s[i]);
            i += 1;
        }
    }
    proof {
        assert(s@.subrange(s@.len() as int, s@.len() as int) =~= Seq::<char>::empty());
    }
    out
}

/// The word of `key` with `{name}` filled in, for each `(name, value)` in turn.
///
/// A sentence with a number cannot be cut into pieces: the order of the pieces differs
/// between the two languages. So the whole sentence is one word with holes in it.
pub fn t_fill(ui: &UiLanguage, key: &str, values: &[(&str, &str)]) -> (r: String)
    ensures
        r@ == filled(word_of(ui.lang, key@), pair_views(values@)),
{
    let word = t(ui, key);
    let mut text = chars::chars_of(word.as_str());
    let ghost views = pair_views(values@);
    let mut k: usize = 0;
    proof {
        assert(views.subrange(0, views.len() as int) =~= views);
    }
    while k < values.len()
        invariant
            k <= values@.len(),
            views == pair_views(values@),
            filled(text@, views.subrange(k as int, views.len() as int)) == filled(
                word_of(ui.lang, key@),
                views,
            ),
        decreases values@.len() - k,
    {
        let (name, value) = values[k];
        let mut open: Vec<char> = Vec::new();
        open.push('{');
        let mut close: Vec<char> = Vec::new();
        close.push('}');
        let named = chars::concat(open.as_slice(), chars::chars_of(name).as_slice());
        let pattern = chars::concat(named.as_slice(), close.as_slice());
        let fill = chars::chars_of(value);
        proof {
            assert(open@ =~= seq!['{']);
            assert(close@ =~= seq!['}']);
            assert(pattern@ =~= hole(views[k as int].0));
            let rest = views.subrange(k as int, views.len() as int);
            assert(rest[0] == views[k as int]);
            assert(rest.subrange(1, rest.len() as int) =~= views.subrange(
                k + 1,
                views.len() as int,
            ));
        }
        text = replace_all(text.as_slice(), pattern.as_slice(), fill.as_slice());
        k += 1;
    }
    proof {
        assert(views.subrange(values@.len() as int, views.len() as int) =~= Seq::<
            (Seq<char>, Seq<char>),
        >::empty());
    }
    chars::string_of(text.as_slice())
}

/// A word without values to fill in is the word itself.
pub proof fn lemma_fill_nothing(lang: Lang, key: Seq<char>)
    ensures
        filled(word_of(lang, key), Seq::empty()) == word_of(lang, key),
{
}

/// `(key, 日本語, English)`, in the order of the keys, so that no key is in it twice
/// (`lemma_word_keys_distinct`). An empty English word is one still missing.
pub const WORDS: [(&'static str, &'static str, &'static str); 171] = [
    // --- badge ---
    ("badge.favorite", "気になる", "Favorite"),
    ("badge.rental", "レンタル", "Rental"),
    ("badge.watching", "視聴中", "Watching"),
    // --- bar ---
    ("bar.back10.title", "10 秒戻る", "Back 10 seconds"),
    ("bar.back30.title", "30 秒戻る", "Back 30 seconds"),
    ("bar.danmaku", "弾幕", "Overlay"),
    (
        "bar.danmaku.title",
        "コメントの表示を切り替える",
        "Show or hide the comments over the video",
    ),
    ("bar.forward10.title", "10 秒進む", "Forward 10 seconds"),
    ("bar.forward30.title", "30 秒進む", "Forward 30 seconds"),
    ("bar.fullscreen", "最大化", "Fill"),
    (
        "bar.fullscreen.title",
        "ブラウザいっぱいに広げる（Esc で戻る）",
        "Fill the browser (Esc goes back)",
    ),
    ("bar.list", "一覧", "List"),
    (
        "bar.list.title",
        "コメント一覧の開閉",
        "Open or close the comment list",
    ),
    ("bar.mute", "音", "Mute"),
    ("bar.mute.title", "ミュート", "Mute"),
    ("bar.native", "サイトUI", "Site UI"),
    (
        "bar.native.title",
        "サイト本来のコントロールを出す（画質などの設定はこちらから）",
        "Show the controls of the site (the picture quality is there)",
    ),
    ("bar.next", "次話", "Next"),
    ("bar.next.title", "次の話へ", "Next episode"),
    ("bar.play.title", "再生 / 一時停止", "Play / pause"),
    ("bar.prev", "前話", "Prev"),
    ("bar.prev.title", "前の話へ", "Previous episode"),
    ("bar.seek.title", "再生位置", "Position"),
    (
        "bar.speed.title",
        "再生速度を切り替える",
        "Change the play rate",
    ),
    ("bar.volume.title", "音量", "Volume"),
    // --- card ---
    ("card.watched", "視聴済", "Watched"),
    // --- comments ---
    (
        "comments.count",
        "{work} {label}／コメント {count} 件（{video}{mark}）",
        "{work} {label} — {count} comments ({video}{mark})",
    ),
    (
        "comments.error",
        "コメントを取得できません: {message}",
        "The comments did not arrive: {message}",
    ),
    (
        "comments.failed",
        "コメントを取得できませんでした",
        "The comments did not arrive",
    ),
    (
        "comments.loading",
        "指定された動画を読み込み中…",
        "Loading the video you gave…",
    ),
    (
        "comments.no_reply",
        "コメントを取得できません（拡張の再読み込みが必要かもしれません）",
        "The comments did not arrive (the extension may need a reload)",
    ),
    (
        "comments.no_work",
        "コメント: 作品名が取れませんでした",
        "Comments: the work title is not readable",
    ),
    ("comments.none", "コメントなし", "No comments"),
    (
        "comments.not_found",
        "ニコニコに該当する公式配信が見つかりません。動画の URL を入れると、その動画のコメントを出します。",
        "No official video on nicovideo for this episode. Put the address of a video in the field to use that one.",
    ),
    (
        "comments.off",
        "コメント: 設定で無効",
        "Comments: off in the settings",
    ),
    (
        "comments.searching",
        "コメントを検索中…",
        "Looking for the comments…",
    ),
    (
        "comments.setup_failed",
        "コメント: 準備に失敗しました",
        "Comments: the start failed",
    ),
    // --- debug ---
    ("debug.buffer", "先読み", "Buffered"),
    ("debug.canvas", "描画面", "Canvas"),
    (
        "debug.canvas.value",
        "{lanes} 段 / {w}×{h} CSS px @{ratio}x",
        "{lanes} lanes / {w}x{h} CSS px @{ratio}x",
    ),
    ("debug.comments", "コメント", "Comments"),
    (
        "debug.comments.value",
        "取得 {got} / 対象 {target} / 表示中 {now}",
        "got {got} / drawn {target} / on screen {now}",
    ),
    ("debug.decode", "復号時間", "Decode"),
    ("debug.draw", "弾幕描画", "Overlay"),
    (
        "debug.draw.value",
        "設定 {set} fps / 実測 {measured}",
        "set {set} fps / measured {measured}",
    ),
    ("debug.fps", "配信フレームレート", "Source frame rate"),
    ("debug.frame", "コマ番号", "Frame"),
    ("debug.frames", "フレーム数", "Frames"),
    (
        "debug.frames.value",
        "復号 {total} / 落ち {dropped} / 破損 {corrupted}",
        "decoded {total} / dropped {dropped} / corrupt {corrupted}",
    ),
    ("debug.length", "尺差", "Length"),
    (
        "debug.length.value",
        "{diff}s（ニコ {nico} / 配信 {site}）",
        "{diff}s (nicovideo {nico} / site {site})",
    ),
    ("debug.measuring", "測定中", "Measuring"),
    ("debug.net.0", "空", "Empty"),
    ("debug.net.1", "待機", "Idle"),
    ("debug.net.2", "読み込み中", "Loading"),
    ("debug.net.3", "ソースなし", "No source"),
    ("debug.paused", "停止中", "Paused"),
    ("debug.playing", "再生中", "Playing"),
    (
        "debug.presented",
        "表示 {presented} / {quality}",
        "presented {presented} / {quality}",
    ),
    (
        "debug.rate",
        "{state} / 速度 {rate}x",
        "{state} / rate {rate}x",
    ),
    ("debug.ready", "読み込み", "Ready"),
    ("debug.ready.0", "未取得", "Nothing"),
    ("debug.ready.1", "メタデータのみ", "Metadata only"),
    ("debug.ready.2", "現在位置のみ", "Current position only"),
    ("debug.ready.3", "先まで再生可", "Can play ahead"),
    ("debug.ready.4", "十分", "Enough"),
    ("debug.seconds", "{n} 秒", "{n} s"),
    ("debug.size", "解像度", "Resolution"),
    ("debug.source", "取得元", "From"),
    ("debug.state", "再生状態", "State"),
    ("debug.time", "再生位置", "Position"),
    (
        "debug.time.value",
        "{current} / {duration} 秒（残り {remaining}）",
        "{current} / {duration} s (left {remaining})",
    ),
    ("debug.unknown", "不明", "Unknown"),
    ("debug.video", "動画", "Video"),
    // --- group ---
    ("group.コメント", "コメント", "Comments"),
    ("group.サイト全体", "サイト全体", "Whole site"),
    ("group.トップページ", "トップページ", "Top page"),
    ("group.一覧", "一覧", "Lists"),
    ("group.作品ページ", "作品ページ", "Work page"),
    ("group.再生", "再生", "Playback"),
    ("group.検索", "検索", "Search"),
    // --- hist ---
    (
        "hist.title",
        "コメントの多いところ",
        "Where the comments are",
    ),
    // --- meta ---
    ("meta.latest", "最新話", "Latest"),
    ("meta.main", "本編", "Main story"),
    ("meta.next", "次の話へ ▶︎", "Next episode ▶︎"),
    ("meta.resume", "前回", "Last time"),
    ("meta.skip", "本編へスキップ ▶︎", "Skip to the main story ▶︎"),
    // --- modal ---
    (
        "modal.csp",
        "サイトの CSP（frame-src）によって、このページ内での再生がブロックされました。",
        "The CSP of the site (frame-src) blocked the playback on this page.",
    ),
    (
        "modal.csp.hint",
        "この機能を ON にすると frame-src を緩める規則が有効になります。切り替えた直後はページを再読み込みしてください。",
        "Turning this feature on enables the rule that opens frame-src. Reload the page after the change.",
    ),
    (
        "modal.open_tab",
        "このタブでプレイヤーを開く",
        "Open the player in this tab",
    ),
    (
        "modal.resizer.title",
        "ドラッグで幅を変更 / ダブルクリックで開閉",
        "Drag to change the width, double click to open or close",
    ),
    // --- offset ---
    ("offset.label", "コメント位置", "Comment offset"),
    (
        "offset.reset.title",
        "クリックで 0 に戻す",
        "Click to go back to 0",
    ),
    (
        "offset.step.title",
        "コメントを {step} 秒ずらす",
        "Move the comments by {step} seconds",
    ),
    (
        "offset.title",
        "既定は先頭揃え（0）。ニコニコ版の尺が長いぶんは末尾の広告なので、通常はずらさなくてよい",
        "The default is 0. The nicovideo version is longer at the end, so this rarely needs a change",
    ),
    // --- opt ---
    ("opt.auto", "自動", "Auto"),
    ("opt.en", "English", "English"),
    ("opt.fps", "{n} fps", "{n} fps"),
    ("opt.ja", "日本語", "日本語"),
    ("opt.sec.4", "4 秒", "4 s"),
    ("opt.sec.6", "6 秒", "6 s"),
    ("opt.sec.fast", "3 秒（速い）", "3 s (fast)"),
    ("opt.sec.slow", "8 秒（ゆっくり）", "8 s (slow)"),
    ("opt.sort.favorites", "気になる登録数順", "By favorites"),
    ("opt.sort.kana", "５０音順", "By name"),
    ("opt.sort.plays", "再生数順", "By plays"),
    ("opt.sort.release", "リリース順", "By release"),
    ("opt.sort.relevance", "関連度順", "By relevance"),
    ("opt.sort.year", "製作年度順", "By year"),
    ("opt.thumb.640", "640×360（既定）", "640x360 (default)"),
    (
        "opt.thumb.off",
        "そのまま（通信量が最小）",
        "As it is (least traffic)",
    ),
    (
        "opt.width.180",
        "180px（多く並べる）",
        "180px (many at once)",
    ),
    ("opt.width.220", "220px", "220px"),
    ("opt.width.260", "260px", "260px"),
    ("opt.width.320", "320px（大きく見る）", "320px (large)"),
    (
        "opt.width.auto",
        "画面に合わせる（既定）",
        "Fit the screen (default)",
    ),
    // --- options ---
    (
        "options.failed",
        "保存に失敗しました。",
        "The setting was not saved.",
    ),
    (
        "options.lead",
        "切り替えると即座に保存されます。すでに開いているタブには再読み込み後に反映されます。",
        "A change is saved at once. A tab that is already open needs a reload.",
    ),
    (
        "options.lead.compact",
        "切り替えは即座に保存されます。",
        "A change is saved at once.",
    ),
    (
        "options.master",
        "この拡張を有効にする",
        "Turn this extension on",
    ),
    (
        "options.master.desc",
        "切ると、すべての表示改造を止めてサイト本来の見た目に戻します（Chrome の拡張機能そのものは切りません）。開いているタブはその場で戻り、こちらの UI を出し直すにはページの再読み込みが必要です。",
        "With this off, every change stops and the site looks as it always does (the extension itself stays on in Chrome). A tab that is open goes back at once; to get this UI again, reload the page.",
    ),
    ("options.nav.label", "設定の種類", "Groups of settings"),
    (
        "options.saved",
        "保存しました。開いているタブは再読み込みしてください。",
        "Saved. Reload the tabs that are open.",
    ),
    // --- pin ---
    ("pin.auto", "自動", "Auto"),
    (
        "pin.auto.title",
        "指定をやめて自動で探し直す",
        "Forget it and search again",
    ),
    (
        "pin.bad_url",
        "動画の URL を読み取れません（例: https://www.nicovideo.jp/watch/so46649112）",
        "That is not the address of a video (for example https://www.nicovideo.jp/watch/so46649112)",
    ),
    ("pin.load", "読込", "Load"),
    ("pin.mark", "指定", "given"),
    ("pin.placeholder", "動画の URL", "Address of a video"),
    (
        "pin.title",
        "この話に使うニコニコ動画を指定します",
        "The video of nicovideo to use for this episode",
    ),
    // --- popup ---
    (
        "popup.clear",
        "コメントの控えを消す",
        "Remove the comment cache",
    ),
    (
        "popup.cleared.failed",
        "控えを消せませんでした。",
        "The cache was not removed.",
    ),
    (
        "popup.cleared.none",
        "消すものがありませんでした。",
        "There was nothing to remove.",
    ),
    (
        "popup.options",
        "説明つきで開く",
        "Open with the descriptions",
    ),
    ("popup.reload", "ページを再読み込み", "Reload the page"),
    // --- scroll ---
    ("scroll.all", "すべて表示しました", "Everything is shown"),
    (
        "scroll.failed",
        "自動読み込みに失敗しました。ページ送りを使ってください。",
        "The next page did not arrive. Use the paging of the site.",
    ),
    (
        "scroll.first",
        "全 {total} ページ / 1 ページ目まで表示",
        "{total} pages, showing page 1",
    ),
    (
        "scroll.loading",
        "{page} ページ目を読み込み中…",
        "Loading page {page}…",
    ),
    (
        "scroll.progress",
        "{page} / {total} ページまで表示",
        "Showing page {page} of {total}",
    ),
    // --- search ---
    ("search.count", "{total} 件", "{total} works"),
    (
        "search.count.loaded",
        "{total} 件中 {loaded} 件",
        "{loaded} of {total} works",
    ),
    (
        "search.empty",
        "「{word}」に一致する作品はありません{hint}",
        "Nothing matches \"{word}\"{hint}",
    ),
    ("search.failed", "検索できませんでした", "The search failed"),
    (
        "search.hint",
        "作品名を入れると、打ちながら結果が出ます",
        "Type a title; the results arrive while you type",
    ),
    ("search.label", "作品を検索", "Search for a work"),
    ("search.more", "読み込み中…", "Loading…"),
    (
        "search.more.failed",
        "続きを読み込めませんでした",
        "The next page did not arrive",
    ),
    ("search.no_rental", "レンタルを除く", "No rentals"),
    ("search.placeholder", "作品名で検索", "Search by title"),
    (
        "search.rental_hint",
        "（レンタルを除いています）",
        " (the rentals are left out)",
    ),
    ("search.running", "検索中…", "Searching…"),
    (
        "search.short",
        "もう少し入れてください（2 文字から）",
        "A little more, please (two letters or more)",
    ),
    ("search.sort.label", "並び替え", "Order"),
    // --- top ---
    ("top.all", "すべて見る", "See all"),
    ("top.browse", "さがす", "Find"),
    (
        "top.list.all",
        "この一覧をすべて見る",
        "See all of this list",
    ),
    (
        "top.more",
        "もっと見る（あと {count} 件）",
        "More ({count} left)",
    ),
    ("top.other", "おすすめ", "Recommended"),
    ("top.rank", "{label} {rank}位", "{label} no. {rank}"),
    ("top.ranking", "デイリーランキング", "Daily ranking"),
    ("top.watch", "この作品を見る", "Watch this work"),
    (
        "top.work.label",
        "この作品のページへ",
        "To the page of this work",
    ),
    // --- work ---
    ("work.cast", "キャスト", "Cast"),
    ("work.favorite", "気になる", "Favorite"),
    ("work.genre", "ジャンル", "Genres"),
    ("work.mylist", "マイリスト", "My list"),
    ("work.other", "その他", "Other"),
    ("work.staff", "スタッフ", "Staff"),
    ("work.summary", "あらすじ", "Summary"),
    ("work.year", "製作年", "Year"),
];

/// `a` and `b` agree before `p`, and there `a` ends first or has the smaller character.
pub open spec fn lex_step(a: Seq<char>, b: Seq<char>, p: int) -> bool {
    &&& 0 <= p <= a.len()
    &&& p <= b.len()
    &&& a.take(p) =~= b.take(p)
    &&& ((p == a.len() && p < b.len()) || (p < a.len() && p < b.len() && a[p] < b[p]))
}

/// `a` comes before `b` in the order of the characters.
pub open spec fn lex_less(a: Seq<char>, b: Seq<char>) -> bool {
    exists|p: int| lex_step(a, b, p)
}

proof fn lemma_lex_less_trans(a: Seq<char>, b: Seq<char>, c: Seq<char>)
    requires
        lex_less(a, b),
        lex_less(b, c),
    ensures
        lex_less(a, c),
{
    let p1 = choose|p: int| lex_step(a, b, p);
    let p2 = choose|p: int| lex_step(b, c, p);
    if p1 < p2 {
        assert(a.take(p1) =~= c.take(p1)) by {
            assert forall|k: int| 0 <= k < p1 implies a[k] == c[k] by {
                assert(a.take(p1)[k] == b.take(p1)[k]);
                assert(b.take(p2)[k] == c.take(p2)[k]);
            }
        }
        if p1 < a.len() {
            assert(b.take(p2)[p1] == c.take(p2)[p1]);
        }
        assert(lex_step(a, c, p1));
    } else if p2 < p1 {
        assert(a.take(p2) =~= c.take(p2)) by {
            assert forall|k: int| 0 <= k < p2 implies a[k] == c[k] by {
                assert(a.take(p1)[k] == b.take(p1)[k]);
                assert(b.take(p2)[k] == c.take(p2)[k]);
            }
        }
        assert(a.take(p1)[p2] == b.take(p1)[p2]);
        assert(lex_step(a, c, p2));
    } else {
        assert(a.take(p1) =~= c.take(p1)) by {
            assert forall|k: int| 0 <= k < p1 implies a[k] == c[k] by {
                assert(a.take(p1)[k] == b.take(p1)[k]);
                assert(b.take(p2)[k] == c.take(p2)[k]);
            }
        }
        assert(lex_step(a, c, p1));
    }
}

proof fn lemma_lex_less_differs(a: Seq<char>, b: Seq<char>)
    requires
        lex_less(a, b),
    ensures
        a != b,
{
    let p = choose|p: int| lex_step(a, b, p);
}

/// Each key of `WORDS` comes before the next one.
proof fn lemma_word_keys_step(i: int)
    requires
        0 <= i < WORDS@.len() - 1,
    ensures
        lex_less(WORDS@[i].0@, WORDS@[i + 1].0@),
{
    if i == 0 {
        reveal_strlit("badge.favorite");
        reveal_strlit("badge.rental");
        assert(lex_step(WORDS@[0].0@, WORDS@[1].0@, 6));
    } else if i == 1 {
        reveal_strlit("badge.rental");
        reveal_strlit("badge.watching");
        assert(lex_step(WORDS@[1].0@, WORDS@[2].0@, 6));
    } else if i == 2 {
        reveal_strlit("badge.watching");
        reveal_strlit("bar.back10.title");
        assert(lex_step(WORDS@[2].0@, WORDS@[3].0@, 2));
    } else if i == 3 {
        reveal_strlit("bar.back10.title");
        reveal_strlit("bar.back30.title");
        assert(lex_step(WORDS@[3].0@, WORDS@[4].0@, 8));
    } else if i == 4 {
        reveal_strlit("bar.back30.title");
        reveal_strlit("bar.danmaku");
        assert(lex_step(WORDS@[4].0@, WORDS@[5].0@, 4));
    } else if i == 5 {
        reveal_strlit("bar.danmaku");
        reveal_strlit("bar.danmaku.title");
        assert(lex_step(WORDS@[5].0@, WORDS@[6].0@, 11));
    } else if i == 6 {
        reveal_strlit("bar.danmaku.title");
        reveal_strlit("bar.forward10.title");
        assert(lex_step(WORDS@[6].0@, WORDS@[7].0@, 4));
    } else if i == 7 {
        reveal_strlit("bar.forward10.title");
        reveal_strlit("bar.forward30.title");
        assert(lex_step(WORDS@[7].0@, WORDS@[8].0@, 11));
    } else if i == 8 {
        reveal_strlit("bar.forward30.title");
        reveal_strlit("bar.fullscreen");
        assert(lex_step(WORDS@[8].0@, WORDS@[9].0@, 5));
    } else if i == 9 {
        reveal_strlit("bar.fullscreen");
        reveal_strlit("bar.fullscreen.title");
        assert(lex_step(WORDS@[9].0@, WORDS@[10].0@, 14));
    } else if i == 10 {
        reveal_strlit("bar.fullscreen.title");
        reveal_strlit("bar.list");
        assert(lex_step(WORDS@[10].0@, WORDS@[11].0@, 4));
    } else if i == 11 {
        reveal_strlit("bar.list");
        reveal_strlit("bar.list.title");
        assert(lex_step(WORDS@[11].0@, WORDS@[12].0@, 8));
    } else if i == 12 {
        reveal_strlit("bar.list.title");
        reveal_strlit("bar.mute");
        assert(lex_step(WORDS@[12].0@, WORDS@[13].0@, 4));
    } else if i == 13 {
        reveal_strlit("bar.mute");
        reveal_strlit("bar.mute.title");
        assert(lex_step(WORDS@[13].0@, WORDS@[14].0@, 8));
    } else if i == 14 {
        reveal_strlit("bar.mute.title");
        reveal_strlit("bar.native");
        assert(lex_step(WORDS@[14].0@, WORDS@[15].0@, 4));
    } else if i == 15 {
        reveal_strlit("bar.native");
        reveal_strlit("bar.native.title");
        assert(lex_step(WORDS@[15].0@, WORDS@[16].0@, 10));
    } else if i == 16 {
        reveal_strlit("bar.native.title");
        reveal_strlit("bar.next");
        assert(lex_step(WORDS@[16].0@, WORDS@[17].0@, 5));
    } else if i == 17 {
        reveal_strlit("bar.next");
        reveal_strlit("bar.next.title");
        assert(lex_step(WORDS@[17].0@, WORDS@[18].0@, 8));
    } else if i == 18 {
        reveal_strlit("bar.next.title");
        reveal_strlit("bar.play.title");
        assert(lex_step(WORDS@[18].0@, WORDS@[19].0@, 4));
    } else if i == 19 {
        reveal_strlit("bar.play.title");
        reveal_strlit("bar.prev");
        assert(lex_step(WORDS@[19].0@, WORDS@[20].0@, 5));
    } else if i == 20 {
        reveal_strlit("bar.prev");
        reveal_strlit("bar.prev.title");
        assert(lex_step(WORDS@[20].0@, WORDS@[21].0@, 8));
    } else if i == 21 {
        reveal_strlit("bar.prev.title");
        reveal_strlit("bar.seek.title");
        assert(lex_step(WORDS@[21].0@, WORDS@[22].0@, 4));
    } else if i == 22 {
        reveal_strlit("bar.seek.title");
        reveal_strlit("bar.speed.title");
        assert(lex_step(WORDS@[22].0@, WORDS@[23].0@, 5));
    } else if i == 23 {
        reveal_strlit("bar.speed.title");
        reveal_strlit("bar.volume.title");
        assert(lex_step(WORDS@[23].0@, WORDS@[24].0@, 4));
    } else if i == 24 {
        reveal_strlit("bar.volume.title");
        reveal_strlit("card.watched");
        assert(lex_step(WORDS@[24].0@, WORDS@[25].0@, 0));
    } else if i == 25 {
        reveal_strlit("card.watched");
        reveal_strlit("comments.count");
        assert(lex_step(WORDS@[25].0@, WORDS@[26].0@, 1));
    } else if i == 26 {
        reveal_strlit("comments.count");
        reveal_strlit("comments.error");
        assert(lex_step(WORDS@[26].0@, WORDS@[27].0@, 9));
    } else if i == 27 {
        reveal_strlit("comments.error");
        reveal_strlit("comments.failed");
        assert(lex_step(WORDS@[27].0@, WORDS@[28].0@, 9));
    } else if i == 28 {
        reveal_strlit("comments.failed");
        reveal_strlit("comments.loading");
        assert(lex_step(WORDS@[28].0@, WORDS@[29].0@, 9));
    } else if i == 29 {
        reveal_strlit("comments.loading");
        reveal_strlit("comments.no_reply");
        assert(lex_step(WORDS@[29].0@, WORDS@[30].0@, 9));
    } else if i == 30 {
        reveal_strlit("comments.no_reply");
        reveal_strlit("comments.no_work");
        assert(lex_step(WORDS@[30].0@, WORDS@[31].0@, 12));
    } else if i == 31 {
        reveal_strlit("comments.no_work");
        reveal_strlit("comments.none");
        assert(lex_step(WORDS@[31].0@, WORDS@[32].0@, 11));
    } else if i == 32 {
        reveal_strlit("comments.none");
        reveal_strlit("comments.not_found");
        assert(lex_step(WORDS@[32].0@, WORDS@[33].0@, 11));
    } else if i == 33 {
        reveal_strlit("comments.not_found");
        reveal_strlit("comments.off");
        assert(lex_step(WORDS@[33].0@, WORDS@[34].0@, 9));
    } else if i == 34 {
        reveal_strlit("comments.off");
        reveal_strlit("comments.searching");
        assert(lex_step(WORDS@[34].0@, WORDS@[35].0@, 9));
    } else if i == 35 {
        reveal_strlit("comments.searching");
        reveal_strlit("comments.setup_failed");
        assert(lex_step(WORDS@[35].0@, WORDS@[36].0@, 11));
    } else if i == 36 {
        reveal_strlit("comments.setup_failed");
        reveal_strlit("debug.buffer");
        assert(lex_step(WORDS@[36].0@, WORDS@[37].0@, 0));
    } else if i == 37 {
        reveal_strlit("debug.buffer");
        reveal_strlit("debug.canvas");
        assert(lex_step(WORDS@[37].0@, WORDS@[38].0@, 6));
    } else if i == 38 {
        reveal_strlit("debug.canvas");
        reveal_strlit("debug.canvas.value");
        assert(lex_step(WORDS@[38].0@, WORDS@[39].0@, 12));
    } else if i == 39 {
        reveal_strlit("debug.canvas.value");
        reveal_strlit("debug.comments");
        assert(lex_step(WORDS@[39].0@, WORDS@[40].0@, 7));
    } else if i == 40 {
        reveal_strlit("debug.comments");
        reveal_strlit("debug.comments.value");
        assert(lex_step(WORDS@[40].0@, WORDS@[41].0@, 14));
    } else if i == 41 {
        reveal_strlit("debug.comments.value");
        reveal_strlit("debug.decode");
        assert(lex_step(WORDS@[41].0@, WORDS@[42].0@, 6));
    } else if i == 42 {
        reveal_strlit("debug.decode");
        reveal_strlit("debug.draw");
        assert(lex_step(WORDS@[42].0@, WORDS@[43].0@, 7));
    } else if i == 43 {
        reveal_strlit("debug.draw");
        reveal_strlit("debug.draw.value");
        assert(lex_step(WORDS@[43].0@, WORDS@[44].0@, 10));
    } else if i == 44 {
        reveal_strlit("debug.draw.value");
        reveal_strlit("debug.fps");
        assert(lex_step(WORDS@[44].0@, WORDS@[45].0@, 6));
    } else if i == 45 {
        reveal_strlit("debug.fps");
        reveal_strlit("debug.frame");
        assert(lex_step(WORDS@[45].0@, WORDS@[46].0@, 7));
    } else if i == 46 {
        reveal_strlit("debug.frame");
        reveal_strlit("debug.frames");
        assert(lex_step(WORDS@[46].0@, WORDS@[47].0@, 11));
    } else if i == 47 {
        reveal_strlit("debug.frames");
        reveal_strlit("debug.frames.value");
        assert(lex_step(WORDS@[47].0@, WORDS@[48].0@, 12));
    } else if i == 48 {
        reveal_strlit("debug.frames.value");
        reveal_strlit("debug.length");
        assert(lex_step(WORDS@[48].0@, WORDS@[49].0@, 6));
    } else if i == 49 {
        reveal_strlit("debug.length");
        reveal_strlit("debug.length.value");
        assert(lex_step(WORDS@[49].0@, WORDS@[50].0@, 12));
    } else if i == 50 {
        reveal_strlit("debug.length.value");
        reveal_strlit("debug.measuring");
        assert(lex_step(WORDS@[50].0@, WORDS@[51].0@, 6));
    } else if i == 51 {
        reveal_strlit("debug.measuring");
        reveal_strlit("debug.net.0");
        assert(lex_step(WORDS@[51].0@, WORDS@[52].0@, 6));
    } else if i == 52 {
        reveal_strlit("debug.net.0");
        reveal_strlit("debug.net.1");
        assert(lex_step(WORDS@[52].0@, WORDS@[53].0@, 10));
    } else if i == 53 {
        reveal_strlit("debug.net.1");
        reveal_strlit("debug.net.2");
        assert(lex_step(WORDS@[53].0@, WORDS@[54].0@, 10));
    } else if i == 54 {
        reveal_strlit("debug.net.2");
        reveal_strlit("debug.net.3");
        assert(lex_step(WORDS@[54].0@, WORDS@[55].0@, 10));
    } else if i == 55 {
        reveal_strlit("debug.net.3");
        reveal_strlit("debug.paused");
        assert(lex_step(WORDS@[55].0@, WORDS@[56].0@, 6));
    } else if i == 56 {
        reveal_strlit("debug.paused");
        reveal_strlit("debug.playing");
        assert(lex_step(WORDS@[56].0@, WORDS@[57].0@, 7));
    } else if i == 57 {
        reveal_strlit("debug.playing");
        reveal_strlit("debug.presented");
        assert(lex_step(WORDS@[57].0@, WORDS@[58].0@, 7));
    } else if i == 58 {
        reveal_strlit("debug.presented");
        reveal_strlit("debug.rate");
        assert(lex_step(WORDS@[58].0@, WORDS@[59].0@, 6));
    } else if i == 59 {
        reveal_strlit("debug.rate");
        reveal_strlit("debug.ready");
        assert(lex_step(WORDS@[59].0@, WORDS@[60].0@, 7));
    } else if i == 60 {
        reveal_strlit("debug.ready");
        reveal_strlit("debug.ready.0");
        assert(lex_step(WORDS@[60].0@, WORDS@[61].0@, 11));
    } else if i == 61 {
        reveal_strlit("debug.ready.0");
        reveal_strlit("debug.ready.1");
        assert(lex_step(WORDS@[61].0@, WORDS@[62].0@, 12));
    } else if i == 62 {
        reveal_strlit("debug.ready.1");
        reveal_strlit("debug.ready.2");
        assert(lex_step(WORDS@[62].0@, WORDS@[63].0@, 12));
    } else if i == 63 {
        reveal_strlit("debug.ready.2");
        reveal_strlit("debug.ready.3");
        assert(lex_step(WORDS@[63].0@, WORDS@[64].0@, 12));
    } else if i == 64 {
        reveal_strlit("debug.ready.3");
        reveal_strlit("debug.ready.4");
        assert(lex_step(WORDS@[64].0@, WORDS@[65].0@, 12));
    } else if i == 65 {
        reveal_strlit("debug.ready.4");
        reveal_strlit("debug.seconds");
        assert(lex_step(WORDS@[65].0@, WORDS@[66].0@, 6));
    } else if i == 66 {
        reveal_strlit("debug.seconds");
        reveal_strlit("debug.size");
        assert(lex_step(WORDS@[66].0@, WORDS@[67].0@, 7));
    } else if i == 67 {
        reveal_strlit("debug.size");
        reveal_strlit("debug.source");
        assert(lex_step(WORDS@[67].0@, WORDS@[68].0@, 7));
    } else if i == 68 {
        reveal_strlit("debug.source");
        reveal_strlit("debug.state");
        assert(lex_step(WORDS@[68].0@, WORDS@[69].0@, 7));
    } else if i == 69 {
        reveal_strlit("debug.state");
        reveal_strlit("debug.time");
        assert(lex_step(WORDS@[69].0@, WORDS@[70].0@, 6));
    } else if i == 70 {
        reveal_strlit("debug.time");
        reveal_strlit("debug.time.value");
        assert(lex_step(WORDS@[70].0@, WORDS@[71].0@, 10));
    } else if i == 71 {
        reveal_strlit("debug.time.value");
        reveal_strlit("debug.unknown");
        assert(lex_step(WORDS@[71].0@, WORDS@[72].0@, 6));
    } else if i == 72 {
        reveal_strlit("debug.unknown");
        reveal_strlit("debug.video");
        assert(lex_step(WORDS@[72].0@, WORDS@[73].0@, 6));
    } else if i == 73 {
        reveal_strlit("debug.video");
        reveal_strlit("group.コメント");
        assert(lex_step(WORDS@[73].0@, WORDS@[74].0@, 0));
    } else if i == 74 {
        reveal_strlit("group.コメント");
        reveal_strlit("group.サイト全体");
        assert(lex_step(WORDS@[74].0@, WORDS@[75].0@, 6));
    } else if i == 75 {
        reveal_strlit("group.サイト全体");
        reveal_strlit("group.トップページ");
        assert(lex_step(WORDS@[75].0@, WORDS@[76].0@, 6));
    } else if i == 76 {
        reveal_strlit("group.トップページ");
        reveal_strlit("group.一覧");
        assert(lex_step(WORDS@[76].0@, WORDS@[77].0@, 6));
    } else if i == 77 {
        reveal_strlit("group.一覧");
        reveal_strlit("group.作品ページ");
        assert(lex_step(WORDS@[77].0@, WORDS@[78].0@, 6));
    } else if i == 78 {
        reveal_strlit("group.作品ページ");
        reveal_strlit("group.再生");
        assert(lex_step(WORDS@[78].0@, WORDS@[79].0@, 6));
    } else if i == 79 {
        reveal_strlit("group.再生");
        reveal_strlit("group.検索");
        assert(lex_step(WORDS@[79].0@, WORDS@[80].0@, 6));
    } else if i == 80 {
        reveal_strlit("group.検索");
        reveal_strlit("hist.title");
        assert(lex_step(WORDS@[80].0@, WORDS@[81].0@, 0));
    } else if i == 81 {
        reveal_strlit("hist.title");
        reveal_strlit("meta.latest");
        assert(lex_step(WORDS@[81].0@, WORDS@[82].0@, 0));
    } else if i == 82 {
        reveal_strlit("meta.latest");
        reveal_strlit("meta.main");
        assert(lex_step(WORDS@[82].0@, WORDS@[83].0@, 5));
    } else if i == 83 {
        reveal_strlit("meta.main");
        reveal_strlit("meta.next");
        assert(lex_step(WORDS@[83].0@, WORDS@[84].0@, 5));
    } else if i == 84 {
        reveal_strlit("meta.next");
        reveal_strlit("meta.resume");
        assert(lex_step(WORDS@[84].0@, WORDS@[85].0@, 5));
    } else if i == 85 {
        reveal_strlit("meta.resume");
        reveal_strlit("meta.skip");
        assert(lex_step(WORDS@[85].0@, WORDS@[86].0@, 5));
    } else if i == 86 {
        reveal_strlit("meta.skip");
        reveal_strlit("modal.csp");
        assert(lex_step(WORDS@[86].0@, WORDS@[87].0@, 1));
    } else if i == 87 {
        reveal_strlit("modal.csp");
        reveal_strlit("modal.csp.hint");
        assert(lex_step(WORDS@[87].0@, WORDS@[88].0@, 9));
    } else if i == 88 {
        reveal_strlit("modal.csp.hint");
        reveal_strlit("modal.open_tab");
        assert(lex_step(WORDS@[88].0@, WORDS@[89].0@, 6));
    } else if i == 89 {
        reveal_strlit("modal.open_tab");
        reveal_strlit("modal.resizer.title");
        assert(lex_step(WORDS@[89].0@, WORDS@[90].0@, 6));
    } else if i == 90 {
        reveal_strlit("modal.resizer.title");
        reveal_strlit("offset.label");
        assert(lex_step(WORDS@[90].0@, WORDS@[91].0@, 0));
    } else if i == 91 {
        reveal_strlit("offset.label");
        reveal_strlit("offset.reset.title");
        assert(lex_step(WORDS@[91].0@, WORDS@[92].0@, 7));
    } else if i == 92 {
        reveal_strlit("offset.reset.title");
        reveal_strlit("offset.step.title");
        assert(lex_step(WORDS@[92].0@, WORDS@[93].0@, 7));
    } else if i == 93 {
        reveal_strlit("offset.step.title");
        reveal_strlit("offset.title");
        assert(lex_step(WORDS@[93].0@, WORDS@[94].0@, 7));
    } else if i == 94 {
        reveal_strlit("offset.title");
        reveal_strlit("opt.auto");
        assert(lex_step(WORDS@[94].0@, WORDS@[95].0@, 1));
    } else if i == 95 {
        reveal_strlit("opt.auto");
        reveal_strlit("opt.en");
        assert(lex_step(WORDS@[95].0@, WORDS@[96].0@, 4));
    } else if i == 96 {
        reveal_strlit("opt.en");
        reveal_strlit("opt.fps");
        assert(lex_step(WORDS@[96].0@, WORDS@[97].0@, 4));
    } else if i == 97 {
        reveal_strlit("opt.fps");
        reveal_strlit("opt.ja");
        assert(lex_step(WORDS@[97].0@, WORDS@[98].0@, 4));
    } else if i == 98 {
        reveal_strlit("opt.ja");
        reveal_strlit("opt.sec.4");
        assert(lex_step(WORDS@[98].0@, WORDS@[99].0@, 4));
    } else if i == 99 {
        reveal_strlit("opt.sec.4");
        reveal_strlit("opt.sec.6");
        assert(lex_step(WORDS@[99].0@, WORDS@[100].0@, 8));
    } else if i == 100 {
        reveal_strlit("opt.sec.6");
        reveal_strlit("opt.sec.fast");
        assert(lex_step(WORDS@[100].0@, WORDS@[101].0@, 8));
    } else if i == 101 {
        reveal_strlit("opt.sec.fast");
        reveal_strlit("opt.sec.slow");
        assert(lex_step(WORDS@[101].0@, WORDS@[102].0@, 8));
    } else if i == 102 {
        reveal_strlit("opt.sec.slow");
        reveal_strlit("opt.sort.favorites");
        assert(lex_step(WORDS@[102].0@, WORDS@[103].0@, 5));
    } else if i == 103 {
        reveal_strlit("opt.sort.favorites");
        reveal_strlit("opt.sort.kana");
        assert(lex_step(WORDS@[103].0@, WORDS@[104].0@, 9));
    } else if i == 104 {
        reveal_strlit("opt.sort.kana");
        reveal_strlit("opt.sort.plays");
        assert(lex_step(WORDS@[104].0@, WORDS@[105].0@, 9));
    } else if i == 105 {
        reveal_strlit("opt.sort.plays");
        reveal_strlit("opt.sort.release");
        assert(lex_step(WORDS@[105].0@, WORDS@[106].0@, 9));
    } else if i == 106 {
        reveal_strlit("opt.sort.release");
        reveal_strlit("opt.sort.relevance");
        assert(lex_step(WORDS@[106].0@, WORDS@[107].0@, 13));
    } else if i == 107 {
        reveal_strlit("opt.sort.relevance");
        reveal_strlit("opt.sort.year");
        assert(lex_step(WORDS@[107].0@, WORDS@[108].0@, 9));
    } else if i == 108 {
        reveal_strlit("opt.sort.year");
        reveal_strlit("opt.thumb.640");
        assert(lex_step(WORDS@[108].0@, WORDS@[109].0@, 4));
    } else if i == 109 {
        reveal_strlit("opt.thumb.640");
        reveal_strlit("opt.thumb.off");
        assert(lex_step(WORDS@[109].0@, WORDS@[110].0@, 10));
    } else if i == 110 {
        reveal_strlit("opt.thumb.off");
        reveal_strlit("opt.width.180");
        assert(lex_step(WORDS@[110].0@, WORDS@[111].0@, 4));
    } else if i == 111 {
        reveal_strlit("opt.width.180");
        reveal_strlit("opt.width.220");
        assert(lex_step(WORDS@[111].0@, WORDS@[112].0@, 10));
    } else if i == 112 {
        reveal_strlit("opt.width.220");
        reveal_strlit("opt.width.260");
        assert(lex_step(WORDS@[112].0@, WORDS@[113].0@, 11));
    } else if i == 113 {
        reveal_strlit("opt.width.260");
        reveal_strlit("opt.width.320");
        assert(lex_step(WORDS@[113].0@, WORDS@[114].0@, 10));
    } else if i == 114 {
        reveal_strlit("opt.width.320");
        reveal_strlit("opt.width.auto");
        assert(lex_step(WORDS@[114].0@, WORDS@[115].0@, 10));
    } else if i == 115 {
        reveal_strlit("opt.width.auto");
        reveal_strlit("options.failed");
        assert(lex_step(WORDS@[115].0@, WORDS@[116].0@, 3));
    } else if i == 116 {
        reveal_strlit("options.failed");
        reveal_strlit("options.lead");
        assert(lex_step(WORDS@[116].0@, WORDS@[117].0@, 8));
    } else if i == 117 {
        reveal_strlit("options.lead");
        reveal_strlit("options.lead.compact");
        assert(lex_step(WORDS@[117].0@, WORDS@[118].0@, 12));
    } else if i == 118 {
        reveal_strlit("options.lead.compact");
        reveal_strlit("options.master");
        assert(lex_step(WORDS@[118].0@, WORDS@[119].0@, 8));
    } else if i == 119 {
        reveal_strlit("options.master");
        reveal_strlit("options.master.desc");
        assert(lex_step(WORDS@[119].0@, WORDS@[120].0@, 14));
    } else if i == 120 {
        reveal_strlit("options.master.desc");
        reveal_strlit("options.nav.label");
        assert(lex_step(WORDS@[120].0@, WORDS@[121].0@, 8));
    } else if i == 121 {
        reveal_strlit("options.nav.label");
        reveal_strlit("options.saved");
        assert(lex_step(WORDS@[121].0@, WORDS@[122].0@, 8));
    } else if i == 122 {
        reveal_strlit("options.saved");
        reveal_strlit("pin.auto");
        assert(lex_step(WORDS@[122].0@, WORDS@[123].0@, 0));
    } else if i == 123 {
        reveal_strlit("pin.auto");
        reveal_strlit("pin.auto.title");
        assert(lex_step(WORDS@[123].0@, WORDS@[124].0@, 8));
    } else if i == 124 {
        reveal_strlit("pin.auto.title");
        reveal_strlit("pin.bad_url");
        assert(lex_step(WORDS@[124].0@, WORDS@[125].0@, 4));
    } else if i == 125 {
        reveal_strlit("pin.bad_url");
        reveal_strlit("pin.load");
        assert(lex_step(WORDS@[125].0@, WORDS@[126].0@, 4));
    } else if i == 126 {
        reveal_strlit("pin.load");
        reveal_strlit("pin.mark");
        assert(lex_step(WORDS@[126].0@, WORDS@[127].0@, 4));
    } else if i == 127 {
        reveal_strlit("pin.mark");
        reveal_strlit("pin.placeholder");
        assert(lex_step(WORDS@[127].0@, WORDS@[128].0@, 4));
    } else if i == 128 {
        reveal_strlit("pin.placeholder");
        reveal_strlit("pin.title");
        assert(lex_step(WORDS@[128].0@, WORDS@[129].0@, 4));
    } else if i == 129 {
        reveal_strlit("pin.title");
        reveal_strlit("popup.clear");
        assert(lex_step(WORDS@[129].0@, WORDS@[130].0@, 1));
    } else if i == 130 {
        reveal_strlit("popup.clear");
        reveal_strlit("popup.cleared.failed");
        assert(lex_step(WORDS@[130].0@, WORDS@[131].0@, 11));
    } else if i == 131 {
        reveal_strlit("popup.cleared.failed");
        reveal_strlit("popup.cleared.none");
        assert(lex_step(WORDS@[131].0@, WORDS@[132].0@, 14));
    } else if i == 132 {
        reveal_strlit("popup.cleared.none");
        reveal_strlit("popup.options");
        assert(lex_step(WORDS@[132].0@, WORDS@[133].0@, 6));
    } else if i == 133 {
        reveal_strlit("popup.options");
        reveal_strlit("popup.reload");
        assert(lex_step(WORDS@[133].0@, WORDS@[134].0@, 6));
    } else if i == 134 {
        reveal_strlit("popup.reload");
        reveal_strlit("scroll.all");
        assert(lex_step(WORDS@[134].0@, WORDS@[135].0@, 0));
    } else if i == 135 {
        reveal_strlit("scroll.all");
        reveal_strlit("scroll.failed");
        assert(lex_step(WORDS@[135].0@, WORDS@[136].0@, 7));
    } else if i == 136 {
        reveal_strlit("scroll.failed");
        reveal_strlit("scroll.first");
        assert(lex_step(WORDS@[136].0@, WORDS@[137].0@, 8));
    } else if i == 137 {
        reveal_strlit("scroll.first");
        reveal_strlit("scroll.loading");
        assert(lex_step(WORDS@[137].0@, WORDS@[138].0@, 7));
    } else if i == 138 {
        reveal_strlit("scroll.loading");
        reveal_strlit("scroll.progress");
        assert(lex_step(WORDS@[138].0@, WORDS@[139].0@, 7));
    } else if i == 139 {
        reveal_strlit("scroll.progress");
        reveal_strlit("search.count");
        assert(lex_step(WORDS@[139].0@, WORDS@[140].0@, 1));
    } else if i == 140 {
        reveal_strlit("search.count");
        reveal_strlit("search.count.loaded");
        assert(lex_step(WORDS@[140].0@, WORDS@[141].0@, 12));
    } else if i == 141 {
        reveal_strlit("search.count.loaded");
        reveal_strlit("search.empty");
        assert(lex_step(WORDS@[141].0@, WORDS@[142].0@, 7));
    } else if i == 142 {
        reveal_strlit("search.empty");
        reveal_strlit("search.failed");
        assert(lex_step(WORDS@[142].0@, WORDS@[143].0@, 7));
    } else if i == 143 {
        reveal_strlit("search.failed");
        reveal_strlit("search.hint");
        assert(lex_step(WORDS@[143].0@, WORDS@[144].0@, 7));
    } else if i == 144 {
        reveal_strlit("search.hint");
        reveal_strlit("search.label");
        assert(lex_step(WORDS@[144].0@, WORDS@[145].0@, 7));
    } else if i == 145 {
        reveal_strlit("search.label");
        reveal_strlit("search.more");
        assert(lex_step(WORDS@[145].0@, WORDS@[146].0@, 7));
    } else if i == 146 {
        reveal_strlit("search.more");
        reveal_strlit("search.more.failed");
        assert(lex_step(WORDS@[146].0@, WORDS@[147].0@, 11));
    } else if i == 147 {
        reveal_strlit("search.more.failed");
        reveal_strlit("search.no_rental");
        assert(lex_step(WORDS@[147].0@, WORDS@[148].0@, 7));
    } else if i == 148 {
        reveal_strlit("search.no_rental");
        reveal_strlit("search.placeholder");
        assert(lex_step(WORDS@[148].0@, WORDS@[149].0@, 7));
    } else if i == 149 {
        reveal_strlit("search.placeholder");
        reveal_strlit("search.rental_hint");
        assert(lex_step(WORDS@[149].0@, WORDS@[150].0@, 7));
    } else if i == 150 {
        reveal_strlit("search.rental_hint");
        reveal_strlit("search.running");
        assert(lex_step(WORDS@[150].0@, WORDS@[151].0@, 8));
    } else if i == 151 {
        reveal_strlit("search.running");
        reveal_strlit("search.short");
        assert(lex_step(WORDS@[151].0@, WORDS@[152].0@, 7));
    } else if i == 152 {
        reveal_strlit("search.short");
        reveal_strlit("search.sort.label");
        assert(lex_step(WORDS@[152].0@, WORDS@[153].0@, 8));
    } else if i == 153 {
        reveal_strlit("search.sort.label");
        reveal_strlit("top.all");
        assert(lex_step(WORDS@[153].0@, WORDS@[154].0@, 0));
    } else if i == 154 {
        reveal_strlit("top.all");
        reveal_strlit("top.browse");
        assert(lex_step(WORDS@[154].0@, WORDS@[155].0@, 4));
    } else if i == 155 {
        reveal_strlit("top.browse");
        reveal_strlit("top.list.all");
        assert(lex_step(WORDS@[155].0@, WORDS@[156].0@, 4));
    } else if i == 156 {
        reveal_strlit("top.list.all");
        reveal_strlit("top.more");
        assert(lex_step(WORDS@[156].0@, WORDS@[157].0@, 4));
    } else if i == 157 {
        reveal_strlit("top.more");
        reveal_strlit("top.other");
        assert(lex_step(WORDS@[157].0@, WORDS@[158].0@, 4));
    } else if i == 158 {
        reveal_strlit("top.other");
        reveal_strlit("top.rank");
        assert(lex_step(WORDS@[158].0@, WORDS@[159].0@, 4));
    } else if i == 159 {
        reveal_strlit("top.rank");
        reveal_strlit("top.ranking");
        assert(lex_step(WORDS@[159].0@, WORDS@[160].0@, 8));
    } else if i == 160 {
        reveal_strlit("top.ranking");
        reveal_strlit("top.watch");
        assert(lex_step(WORDS@[160].0@, WORDS@[161].0@, 4));
    } else if i == 161 {
        reveal_strlit("top.watch");
        reveal_strlit("top.work.label");
        assert(lex_step(WORDS@[161].0@, WORDS@[162].0@, 5));
    } else if i == 162 {
        reveal_strlit("top.work.label");
        reveal_strlit("work.cast");
        assert(lex_step(WORDS@[162].0@, WORDS@[163].0@, 0));
    } else if i == 163 {
        reveal_strlit("work.cast");
        reveal_strlit("work.favorite");
        assert(lex_step(WORDS@[163].0@, WORDS@[164].0@, 5));
    } else if i == 164 {
        reveal_strlit("work.favorite");
        reveal_strlit("work.genre");
        assert(lex_step(WORDS@[164].0@, WORDS@[165].0@, 5));
    } else if i == 165 {
        reveal_strlit("work.genre");
        reveal_strlit("work.mylist");
        assert(lex_step(WORDS@[165].0@, WORDS@[166].0@, 5));
    } else if i == 166 {
        reveal_strlit("work.mylist");
        reveal_strlit("work.other");
        assert(lex_step(WORDS@[166].0@, WORDS@[167].0@, 5));
    } else if i == 167 {
        reveal_strlit("work.other");
        reveal_strlit("work.staff");
        assert(lex_step(WORDS@[167].0@, WORDS@[168].0@, 5));
    } else if i == 168 {
        reveal_strlit("work.staff");
        reveal_strlit("work.summary");
        assert(lex_step(WORDS@[168].0@, WORDS@[169].0@, 6));
    } else if i == 169 {
        reveal_strlit("work.summary");
        reveal_strlit("work.year");
        assert(lex_step(WORDS@[169].0@, WORDS@[170].0@, 5));
    }
}

proof fn lemma_word_keys_sorted(i: int, j: int)
    requires
        0 <= i < j < WORDS@.len(),
    ensures
        lex_less(WORDS@[i].0@, WORDS@[j].0@),
    decreases j - i,
{
    lemma_word_keys_step(j - 1);
    if i < j - 1 {
        lemma_word_keys_sorted(i, j - 1);
        lemma_lex_less_trans(WORDS@[i].0@, WORDS@[j - 1].0@, WORDS@[j].0@);
    }
}

/// No key is in `WORDS` twice, so the word of a key comes from one row.
pub proof fn lemma_word_keys_distinct()
    ensures
        forall|i: int, j: int|
            0 <= i < j < WORDS@.len() ==> #[trigger] WORDS@[i].0@ != #[trigger] WORDS@[j].0@,
{
    assert forall|i: int, j: int| 0 <= i < j < WORDS@.len() implies #[trigger] WORDS@[i].0@
        != #[trigger] WORDS@[j].0@ by {
        lemma_word_keys_sorted(i, j);
        lemma_lex_less_differs(WORDS@[i].0@, WORDS@[j].0@);
    }
}

} // verus!
