//! The features and their settings.
//!
//! The tables here are the only source: the service worker registers the CSS of the
//! features that are on, the options page builds one row per feature, and the content
//! script tests a feature before it starts it. A new feature is one new line here.
//!
//! What the storage holds arrives as `Stored` (a copy of the object that
//! `chrome.storage.sync.get` gives), and every decision about it is made here.

use vstd::prelude::*;

use crate::chars;

verus! {

/// Prefix of the ids of the dynamic registrations, so no other extension is touched.
pub const SCRIPT_ID_PREFIX: &'static str = "dt-";

/// Feature that plays an episode in a float window. It needs `RULESET_CSP`.
pub const PLAYER_MODAL: &'static str = "player-modal";
/// Feature that draws the comments. It needs `RULESET_NICO_UA`.
pub const COMMENTS: &'static str = "comments";

/// Ruleset that adds `'self'` to the `frame-src` of the site. Only `PLAYER_MODAL`
/// enables it.
pub const RULESET_CSP: &'static str = "csp";
/// Ruleset that puts the name of this extension into the `User-Agent` of the search
/// request to nicovideo. Only `COMMENTS` enables it.
pub const RULESET_NICO_UA: &'static str = "nico-ua";

/// Is the extension enabled? This stops it without a change in `chrome://extensions`.
pub const ENABLED: &'static str = "enabled";
pub const ENABLED_DEFAULT: bool = true;

/// CSS that tells the content script, synchronously, that the extension is enabled.
pub const ENABLED_CSS: &'static str = "styles/enabled.css";
/// The variable that this CSS defines.
pub const ENABLED_VAR: &'static str = "--dt-enabled";

/// Remove the rentals from the search.
pub const SEARCH_NO_RENTAL: &'static str = "search-no-rental";
/// Are the keyboard shortcuts of the float search on?
pub const SEARCH_SHORTCUTS: &'static str = "search-shortcuts";
/// Is the skip button of the float player on?
pub const PLAYER_SKIP: &'static str = "player-skip";

/// Draw rate of the danmaku, in fps.
pub const DANMAKU_FPS_KEY: &'static str = "danmaku-fps";
/// Seconds for one comment to cross the screen.
pub const DANMAKU_DURATION_KEY: &'static str = "danmaku-duration";
/// Default sort of the float search (`sortKey`).
pub const SEARCH_SORT_KEY: &'static str = "search-sort";
/// Minimum width of a card (`--dt-card-min` in the CSS). `auto` writes nothing.
pub const CARD_MIN_WIDTH_KEY: &'static str = "card-min-width";
/// Size of a thumbnail.
pub const THUMB_SIZE_KEY: &'static str = "thumb-size";
/// The value that keeps the image of the site.
pub const THUMB_SIZE_OFF: &'static str = "off";

/// Where the content script runs: the pattern that the extension declares for it.
pub fn matches() -> (v: Vec<&'static str>)
    ensures
        v@.len() == 1,
        v@[0]@ == "https://animestore.docomo.ne.jp/animestore/*"@,
{
    let mut v = Vec::new();
    v.push("https://animestore.docomo.ne.jp/animestore/*");
    v
}

/// The books and the goods have another layout, so they are out of scope.
pub fn exclude_matches() -> (v: Vec<&'static str>)
    ensures
        v@.len() == 2,
        v@[0]@ == "https://animestore.docomo.ne.jp/animestore/book/*"@,
        v@[1]@ == "https://animestore.docomo.ne.jp/animestore/ec/*"@,
{
    let mut v = Vec::new();
    v.push("https://animestore.docomo.ne.jp/animestore/book/*");
    v.push("https://animestore.docomo.ne.jp/animestore/ec/*");
    v
}

pub struct FeatureDef {
    /// Key in the storage. Also the id of the registration.
    pub id: &'static str,
    pub label: &'static str,
    pub description: &'static str,
    /// CSS to register at `document_start`.
    pub css: Vec<&'static str>,
}

/// The ids of the features, in the order of the table.
pub open spec fn feature_ids() -> Seq<Seq<char>> {
    seq![
        "list-grid"@,
        "episode-grid"@,
        "no-promo"@,
        "top-page"@,
        "work-hero"@,
        "work-detail"@,
        "infinite-scroll"@,
        "player-modal"@,
        "search-overlay"@,
        "comments"@,
        "debug-view"@,
    ]
}

/// The CSS of the feature at position `i`. The comments (their CSS is in the one of
/// the float player) and the debug view have none.
pub open spec fn feature_css(i: int) -> Seq<Seq<char>> {
    if i == 0 {
        seq!["styles/list-grid.css"@]
    } else if i == 1 {
        seq!["styles/episode-grid.css"@]
    } else if i == 2 {
        seq!["styles/no-promo.css"@]
    } else if i == 3 {
        seq!["styles/top-page.css"@]
    } else if i == 4 {
        seq!["styles/work-hero.css"@]
    } else if i == 5 {
        seq!["styles/work-detail.css"@]
    } else if i == 6 {
        seq!["styles/infinite-scroll.css"@]
    } else if i == 7 {
        seq!["styles/player-modal.css"@]
    } else if i == 8 {
        seq!["styles/search-overlay.css"@]
    } else {
        seq![]
    }
}

/// The views of some string slices.
pub open spec fn views(v: Seq<&'static str>) -> Seq<Seq<char>> {
    v.map_values(|s: &'static str| s@)
}

/// The table of the features.
pub open spec fn features_table_ok(v: Seq<FeatureDef>) -> bool {
    &&& v.len() == feature_ids().len()
    &&& forall|i: int|
        0 <= i < v.len() ==> (#[trigger] v[i]).id@ == feature_ids()[i] && views(v[i].css@)
            == feature_css(i)
}

fn feature(
    id: &'static str,
    label: &'static str,
    description: &'static str,
    css: Option<&'static str>,
) -> (f: FeatureDef)
    ensures
        f.id == id,
        f.label == label,
        f.description == description,
        views(f.css@) == (match css {
            Some(file) => seq![file@],
            None => Seq::<Seq<char>>::empty(),
        }),
{
    let mut files = Vec::new();
    match css {
        Some(file) => {
            files.push(file);
        },
        None => {},
    }
    proof {
        assert(views(files@) =~= (match css {
            Some(file) => seq![file@],
            None => Seq::<Seq<char>>::empty(),
        }));
    }
    FeatureDef { id, label, description, css: files }
}

/// The features, each with its switch.
pub fn features() -> (v: Vec<FeatureDef>)
    ensures
        features_table_ok(v@),
{
    let mut v = Vec::new();
    v.push(feature(
        "list-grid",
        "一覧を全幅グリッドで表示する",
        "860px 固定 2 列の一覧（続きから見る / 気になる / 視聴履歴 / コンプリート / 全アニメ一覧）を、画面幅いっぱいのグリッドにします。",
        Some("styles/list-grid.css"),
    ));
    v.push(feature(
        "episode-grid",
        "エピソードを全話並べる",
        "作品ページのエピソード一覧を、12 話ずつの横送りから全話のグリッドに変えます。",
        Some("styles/episode-grid.css"),
    ));
    v.push(feature(
        "no-promo",
        "ポップアップ広告を出さない",
        "クーポン等の全面ポップアップ（サイトの dialog.popup-wrapper）を閉じます。隠すだけではページ全体が押せないままになるので、閉じるところまでやります。",
        Some("styles/no-promo.css"),
    ));
    v.push(feature(
        "top-page",
        "トップページを組み替える",
        "15 本ある横スクロールの帯（中身の幅は 4000〜10000px）を、自前の 1 画面に組み替えます。注目 1 作品のヒーロー・今日更新・順位つきランキング・チップで切り替える「さがす」の 4 段構成で、縦 4700px → 1372px になります。",
        Some("styles/top-page.css"),
    ));
    v.push(feature(
        "work-hero",
        "作品ページの見出しを全幅にする",
        "キービジュアル・タイトル・操作を全幅のヒーローにまとめます。見出しの高さが 563px から 320px になり、エピソード一覧が早く出ます。",
        Some("styles/work-hero.css"),
    ));
    v.push(feature(
        "work-detail",
        "作品情報を表にまとめる",
        "あらすじ・ジャンル・キャスト・スタッフの折りたたみをやめ、役名と担当者を対にした表で並べます。",
        Some("styles/work-detail.css"),
    ));
    v.push(feature(
        "infinite-scroll",
        "一覧を無限スクロールにする",
        "マイページ系の一覧でページ送りを隠し、スクロールで次のページを継ぎ足します。",
        Some("styles/infinite-scroll.css"),
    ));
    v.push(feature(
        "player-modal",
        "同じ画面内のウィンドウで再生する",
        "再生ボタンでページ遷移せず、一覧の上に重ねて再生します。Esc または背景クリックで閉じます。",
        Some("styles/player-modal.css"),
    ));
    v.push(feature(
        "search-overlay",
        "「さがす」をフロート検索にする",
        "ヘッダの「さがす」でページ遷移せず、打ちながら結果が出るフロートを重ねます（⌘K / Ctrl+K、/ でも開きます）。",
        Some("styles/search-overlay.css"),
    ));
    v.push(feature(
        "comments",
        "ニコニコのコメントを表示する",
        "フロート再生中に、ニコニコ動画の公式配信から同じ話のコメントを取ってきて重ねます。作品名と話数で動画を突き合わせるため、見つからないこともあります。",
        None,
    ));
    v.push(feature(
        "debug-view",
        "動画情報のデバッグ表示を出す",
        "フロート再生の右下に、配信フレームレート・コマ番号・解像度・先読み・フレーム落ちなどを重ねます。",
        None,
    ));
    proof {
        assert(views(v@[0].css@) =~= feature_css(0));
        assert(views(v@[1].css@) =~= feature_css(1));
        assert(views(v@[2].css@) =~= feature_css(2));
        assert(views(v@[3].css@) =~= feature_css(3));
        assert(views(v@[4].css@) =~= feature_css(4));
        assert(views(v@[5].css@) =~= feature_css(5));
        assert(views(v@[6].css@) =~= feature_css(6));
        assert(views(v@[7].css@) =~= feature_css(7));
        assert(views(v@[8].css@) =~= feature_css(8));
        assert(views(v@[9].css@) =~= feature_css(9));
        assert(views(v@[10].css@) =~= feature_css(10));
    }
    v
}

/// The id of the registration of a feature.
pub fn script_id(feature_id: &str) -> (r: String)
    ensures
        r@ == SCRIPT_ID_PREFIX@ + feature_id@,
{
    let prefix = chars::chars_of(SCRIPT_ID_PREFIX);
    let id = chars::chars_of(feature_id);
    let all = chars::concat(prefix.as_slice(), id.as_slice());
    chars::string_of(all.as_slice())
}


/// A setting that has no CSS of its own: a detail of the behaviour.
pub struct SwitchDef {
    pub id: &'static str,
    pub label: &'static str,
    pub description: &'static str,
    pub default: bool,
}

/// The ids of the switches, in the order of the table. Every one is on by default.
pub open spec fn switch_ids() -> Seq<Seq<char>> {
    seq!["search-no-rental"@, "player-skip"@, "search-shortcuts"@]
}

/// The default of each switch, in the order of the table.
pub open spec fn switch_defaults() -> Seq<bool> {
    seq![true, true, true]
}

pub open spec fn switches_table_ok(v: Seq<SwitchDef>) -> bool {
    &&& v.len() == switch_ids().len()
    &&& forall|i: int|
        0 <= i < v.len() ==> (#[trigger] v[i]).id@ == switch_ids()[i] && v[i].default
            == switch_defaults()[i]
}

/// The switches.
pub fn switches() -> (v: Vec<SwitchDef>)
    ensures
        switches_table_ok(v@),
{
    let mut v = Vec::new();
    v.push(SwitchDef {
        id: SEARCH_NO_RENTAL,
        label: "検索でレンタル作品を除く",
        description: "見放題だけを出します。除外は API（vodTypeList）に任せるので、件数表示も除いた後の数になります。フロート検索のトグルと同じ設定です。",
        default: true,
    });
    v.push(SwitchDef {
        id: PLAYER_SKIP,
        label: "本編へのスキップボタンを出す",
        description: "配信データの章立てから、映像の右下に「本編へスキップ」を出します（判定はサイトのプレイヤーと同じ規則）。エンディングでは「次の話へ」になります。アバン（本編相当）は飛ばさず、自動スキップもしません。",
        default: true,
    });
    v.push(SwitchDef {
        id: SEARCH_SHORTCUTS,
        label: "キーボードでフロート検索を開く",
        description: "⌘K（Ctrl+K）と / で検索を開きます。切ってもヘッダの「さがす」からは開けます。",
        default: true,
    });
    v
}

/// A setting with a list of values. Every value is a string, also a number.
pub struct ChoiceDef {
    pub id: &'static str,
    pub label: &'static str,
    pub description: &'static str,
    /// `(value in the storage, text on the screen)`
    pub options: Vec<(&'static str, &'static str)>,
    pub default: &'static str,
}

/// The ids of the lists, in the order of the table.
pub open spec fn choice_ids() -> Seq<Seq<char>> {
    seq!["danmaku-fps"@, "danmaku-duration"@, "search-sort"@, "card-min-width"@, "thumb-size"@]
}

/// The default value of each list, in the order of the table.
pub open spec fn choice_defaults() -> Seq<Seq<char>> {
    seq!["30"@, "4"@, "4"@, "auto"@, "1"@]
}

/// The values that each list offers, in the order of the table.
pub open spec fn choice_values(i: int) -> Seq<Seq<char>> {
    if i == 0 {
        seq!["24"@, "30"@, "48"@, "60"@]
    } else if i == 1 {
        seq!["3"@, "4"@, "6"@, "8"@]
    } else if i == 2 {
        seq!["4"@, "1"@, "7"@, "3"@, "6"@, "2"@]
    } else if i == 3 {
        seq!["auto"@, "180px"@, "220px"@, "260px"@, "320px"@]
    } else {
        seq!["1"@, "off"@]
    }
}

pub open spec fn option_values(options: Seq<(&'static str, &'static str)>) -> Seq<Seq<char>> {
    options.map_values(|o: (&'static str, &'static str)| o.0@)
}

pub open spec fn choices_table_ok(v: Seq<ChoiceDef>) -> bool {
    &&& v.len() == choice_ids().len()
    &&& forall|i: int|
        0 <= i < v.len() ==> {
            &&& (#[trigger] v[i]).id@ == choice_ids()[i]
            &&& v[i].default@ == choice_defaults()[i]
            &&& option_values(v[i].options@) == choice_values(i)
        }
}

/// The lists.
pub fn choices() -> (v: Vec<ChoiceDef>)
    ensures
        choices_table_ok(v@),
{
    let mut v = Vec::new();
    let mut fps = Vec::new();
    fps.push(("24", "24 fps"));
    fps.push(("30", "30 fps"));
    fps.push(("48", "48 fps"));
    fps.push(("60", "60 fps"));
    v.push(ChoiceDef {
        id: DANMAKU_FPS_KEY,
        label: "弾幕の描画レート",
        description: "上げるほど滑らかに流れますが、そのぶん CPU を使います。コマ数の表示は映像基準の 24fps 固定です。",
        options: fps,
        default: "30",
    });
    let mut seconds = Vec::new();
    seconds.push(("3", "3 秒（速い）"));
    seconds.push(("4", "4 秒"));
    seconds.push(("6", "6 秒"));
    seconds.push(("8", "8 秒（ゆっくり）"));
    v.push(ChoiceDef {
        id: DANMAKU_DURATION_KEY,
        label: "弾幕が流れきる時間",
        description: "コメントが画面を横切るのにかける秒数です。長くすると読みやすくなり、そのぶん同時に出る本数が増えます。",
        options: seconds,
        default: "4",
    });
    // The same values as the search page of the site (#listsort)
    let mut sorts = Vec::new();
    sorts.push(("4", "関連度順"));
    sorts.push(("1", "再生数順"));
    sorts.push(("7", "気になる登録数順"));
    sorts.push(("3", "リリース順"));
    sorts.push(("6", "製作年度順"));
    sorts.push(("2", "５０音順"));
    v.push(ChoiceDef {
        id: SEARCH_SORT_KEY,
        label: "検索の既定の並び",
        description: "フロート検索を開いたときの並び順です。開いた後はその場でも変えられます。",
        options: sorts,
        default: "4",
    });
    let mut widths = Vec::new();
    widths.push(("auto", "画面に合わせる（既定）"));
    widths.push(("180px", "180px（多く並べる）"));
    widths.push(("220px", "220px"));
    widths.push(("260px", "260px"));
    widths.push(("320px", "320px（大きく見る）"));
    v.push(ChoiceDef {
        id: CARD_MIN_WIDTH_KEY,
        label: "一覧カードの下限幅",
        description: "この幅を下回らない範囲で列数が決まります。狭くすると 1 画面に多く並び、広くすると 1 枚が大きくなります。",
        options: widths,
        default: "auto",
    });
    // The site also has 1280 and 1920, but a card is at most 320px wide, so they look
    // the same for 12.5 and 22 times the bytes.
    let mut sizes = Vec::new();
    sizes.push(("1", "640×360（既定）"));
    sizes.push((THUMB_SIZE_OFF, "そのまま（通信量が最小）"));
    v.push(ChoiceDef {
        id: THUMB_SIZE_KEY,
        label: "サムネイルの解像度",
        description: "全幅グリッドではサイトが配る画像（288px など）が引き伸ばされてぼやけるので、既定では 640px 版に差し替えます。通信量を増やしたくないときは「そのまま」を選んでください。",
        options: sizes,
        default: "1",
    });
    proof {
        assert(option_values(v@[0].options@) =~= choice_values(0));
        assert(option_values(v@[1].options@) =~= choice_values(1));
        assert(option_values(v@[2].options@) =~= choice_values(2));
        assert(option_values(v@[3].options@) =~= choice_values(3));
        assert(option_values(v@[4].options@) =~= choice_values(4));
    }
    v
}

/// The first position of `id` in `ids` from `k` on.
pub open spec fn position_from(ids: Seq<Seq<char>>, id: Seq<char>, k: nat) -> Option<int>
    decreases ids.len() - k,
{
    if k >= ids.len() {
        None
    } else if ids[k as int] == id {
        Some(k as int)
    } else {
        position_from(ids, id, k + 1)
    }
}

pub proof fn lemma_position_from(ids: Seq<Seq<char>>, id: Seq<char>, k: nat)
    ensures
        position_from(ids, id, k) matches Some(i) ==> k <= i < ids.len() && ids[i] == id && (
        forall|j: int| k <= j < i ==> ids[j] != id),
        position_from(ids, id, k) is None ==> forall|j: int| k <= j < ids.len() ==> ids[j] != id,
    decreases ids.len() - k,
{
    if k < ids.len() && ids[k as int] != id {
        lemma_position_from(ids, id, k + 1);
    }
}

/// The default of the list `id`; empty for a list that does not exist.
pub open spec fn choice_default_of(id: Seq<char>) -> Seq<char> {
    match position_from(choice_ids(), id, 0) {
        Some(i) => choice_defaults()[i],
        None => seq![],
    }
}

/// The default of the switch `id`; on for a switch that does not exist.
pub open spec fn switch_default_of(id: Seq<char>) -> bool {
    match position_from(switch_ids(), id, 0) {
        Some(i) => switch_defaults()[i],
        None => true,
    }
}

/// The definition of the list `id`.
pub fn choice_def(id: &str) -> (r: Option<ChoiceDef>)
    ensures
        r is Some <== position_from(choice_ids(), id@, 0) is Some,
        r matches Some(c) ==> position_from(choice_ids(), id@, 0) matches Some(i) && c.id@
            == choice_ids()[i] && c.default@ == choice_defaults()[i] && option_values(
            c.options@,
        ) == choice_values(i),
        r is None ==> position_from(choice_ids(), id@, 0) is None,
{
    let mut table = choices();
    let wanted = chars::chars_of(id);
    let mut k: usize = 0;
    while k < table.len()
        invariant
            choices_table_ok(table@),
            k <= table@.len(),
            wanted@ == id@,
            position_from(choice_ids(), id@, 0) == position_from(choice_ids(), id@, k as nat),
        decreases table.len() - k,
    {
        let key = chars::chars_of(table[k].id);
        if chars::same_chars(key.as_slice(), wanted.as_slice()) {
            return Some(table.remove(k));
        }
        k += 1;
    }
    None
}

/// The definition of the switch `id`.
pub fn switch_def(id: &str) -> (r: Option<SwitchDef>)
    ensures
        r is Some <== position_from(switch_ids(), id@, 0) is Some,
        r matches Some(c) ==> position_from(switch_ids(), id@, 0) matches Some(i) && c.id@
            == switch_ids()[i] && c.default == switch_defaults()[i],
        r is None ==> position_from(switch_ids(), id@, 0) is None,
{
    let mut table = switches();
    let wanted = chars::chars_of(id);
    let mut k: usize = 0;
    while k < table.len()
        invariant
            switches_table_ok(table@),
            k <= table@.len(),
            wanted@ == id@,
            position_from(switch_ids(), id@, 0) == position_from(switch_ids(), id@, k as nat),
        decreases table.len() - k,
    {
        let key = chars::chars_of(table[k].id);
        if chars::same_chars(key.as_slice(), wanted.as_slice()) {
            return Some(table.remove(k));
        }
        k += 1;
    }
    None
}

/// One value of the storage, as the settings read it.
///
/// A number that an earlier version wrote (the draw rate of the danmaku) arrives as
/// the text of the number: "24", not "24.0".
pub enum StoredValue {
    Flag(bool),
    Text(String),
    /// Anything else (an object, `null`, a number that is not finite).
    Other,
}

/// What `chrome.storage.sync.get` gave, key by key.
pub struct Stored {
    pub entries: Vec<(String, StoredValue)>,
}

/// The views of the keys of some entries.
pub open spec fn entry_keys(entries: Seq<(String, StoredValue)>) -> Seq<Seq<char>> {
    entries.map_values(|e: (String, StoredValue)| e.0@)
}

/// The value of `key`: the one of its first entry.
pub open spec fn stored_value(entries: Seq<(String, StoredValue)>, key: Seq<char>) -> Option<
    StoredValue,
> {
    match position_from(entry_keys(entries), key, 0) {
        Some(i) => Some(entries[i].1),
        None => None,
    }
}

/// The entries of what was read, if it could be read.
pub open spec fn stored_entries(stored: Option<&Stored>) -> Option<Seq<(String, StoredValue)>> {
    match stored {
        Some(s) => Some(s.entries@),
        None => None,
    }
}

/// The flag of `key`, or `fallback` where the storage could not be read or holds no
/// flag there.
pub open spec fn flag_or(
    entries: Option<Seq<(String, StoredValue)>>,
    key: Seq<char>,
    fallback: bool,
) -> bool {
    match entries {
        Some(e) => match stored_value(e, key) {
            Some(StoredValue::Flag(b)) => b,
            _ => fallback,
        },
        None => fallback,
    }
}

/// The list value of `key`, or its default where the storage could not be read or holds
/// no text there.
pub open spec fn choice_read(entries: Option<Seq<(String, StoredValue)>>, id: Seq<char>) -> Seq<
    char,
> {
    match entries {
        Some(e) => match stored_value(e, id) {
            Some(StoredValue::Text(t)) => t@,
            _ => choice_default_of(id),
        },
        None => choice_default_of(id),
    }
}

impl Stored {
    /// The position of the first entry of `key`.
    pub fn position(&self, key: &str) -> (r: Option<usize>)
        ensures
            r matches Some(i) ==> position_from(entry_keys(self.entries@), key@, 0) == Some(
                i as int,
            ),
            r is None ==> position_from(entry_keys(self.entries@), key@, 0) is None,
            r matches Some(i) ==> i < self.entries@.len() && self.entries@[i as int].0@ == key@,
    {
        let wanted = chars::chars_of(key);
        let ghost keys = entry_keys(self.entries@);
        let mut k: usize = 0;
        while k < self.entries.len()
            invariant
                k <= self.entries@.len(),
                keys == entry_keys(self.entries@),
                wanted@ == key@,
                position_from(keys, key@, 0) == position_from(keys, key@, k as nat),
            decreases self.entries@.len() - k,
        {
            let name = chars::chars_of(self.entries[k].0.as_str());
            if chars::same_chars(name.as_slice(), wanted.as_slice()) {
                proof {
                    lemma_position_from(keys, key@, 0);
                }
                return Some(k);
            }
            k += 1;
        }
        None
    }

    /// The flag of `key`, or `fallback` where there is no flag.
    pub fn flag_or(&self, key: &str, fallback: bool) -> (r: bool)
        ensures
            r == flag_or(Some(self.entries@), key@, fallback),
    {
        match self.position(key) {
            Some(i) => match &self.entries[i].1 {
                StoredValue::Flag(b) => *b,
                _ => fallback,
            },
            None => fallback,
        }
    }
}

/// Read a list setting. An absent or invalid value gives the default, and a list that
/// does not exist has the empty default.
pub fn choice_from(stored: Option<&Stored>, id: &str) -> (r: String)
    ensures
        r@ == choice_read(stored_entries(stored), id@),
{
    let fallback = match choice_def(id) {
        Some(c) => c.default,
        None => "",
    };
    proof {
        reveal_strlit("");
    }
    match stored {
        Some(s) => match s.position(id) {
            Some(i) => match &s.entries[i].1 {
                StoredValue::Text(text) => {
                    return chars::string_of(chars::chars_of(text.as_str()).as_slice());
                },
                _ => {},
            },
            None => {},
        },
        None => {},
    }
    chars::string_of(chars::chars_of(fallback).as_slice())
}

/// Is a switch on? An absent or unreadable value gives the default of the switch, and
/// a switch that does not exist is on.
pub fn switch_from(stored: Option<&Stored>, id: &str) -> (r: bool)
    ensures
        r == flag_or(stored_entries(stored), id@, switch_default_of(id@)),
{
    let fallback = match switch_def(id) {
        Some(s) => s.default,
        None => true,
    };
    match stored {
        Some(s) => s.flag_or(id, fallback),
        None => fallback,
    }
}

/// Is the extension enabled? An unreadable value counts as enabled.
pub fn extension_enabled_from(stored: Option<&Stored>) -> (r: bool)
    ensures
        r == flag_or(stored_entries(stored), ENABLED@, ENABLED_DEFAULT),
{
    match stored {
        Some(s) => s.flag_or(ENABLED, ENABLED_DEFAULT),
        None => ENABLED_DEFAULT,
    }
}

/// The features that are on, in the order of the table. An absent or invalid value
/// counts as on, the default.
pub fn features_from(stored: &Stored) -> (v: Vec<bool>)
    ensures
        v@.len() == feature_ids().len(),
        forall|i: int|
            0 <= i < v@.len() ==> #[trigger] v@[i] == flag_or(
                Some(stored.entries@),
                feature_ids()[i],
                true,
            ),
{
    let table = features();
    let mut v: Vec<bool> = Vec::new();
    let mut k: usize = 0;
    while k < table.len()
        invariant
            features_table_ok(table@),
            k <= table@.len(),
            v@.len() == k,
            forall|i: int|
                0 <= i < k ==> #[trigger] v@[i] == flag_or(
                    Some(stored.entries@),
                    feature_ids()[i],
                    true,
                ),
        decreases table@.len() - k,
    {
        v.push(stored.flag_or(table[k].id, true));
        k += 1;
    }
    v
}

/// Is the feature `feature_id` on? Without a readable setting, and for an id that is
/// not in the table, it is on.
pub fn feature_on(stored: Option<&Stored>, feature_id: &str) -> (r: bool)
    ensures
        r == match position_from(feature_ids(), feature_id@, 0) {
            Some(i) => flag_or(stored_entries(stored), feature_ids()[i], true),
            None => true,
        },
{
    let s = match stored {
        Some(s) => s,
        None => {
            return true;
        },
    };
    let enabled = features_from(s);
    let table = features();
    let wanted = chars::chars_of(feature_id);
    let mut k: usize = 0;
    while k < table.len()
        invariant
            features_table_ok(table@),
            k <= table@.len(),
            wanted@ == feature_id@,
            stored_entries(stored) == Some(s.entries@),
            enabled@.len() == feature_ids().len(),
            forall|i: int|
                0 <= i < enabled@.len() ==> #[trigger] enabled@[i] == flag_or(
                    Some(s.entries@),
                    feature_ids()[i],
                    true,
                ),
            position_from(feature_ids(), feature_id@, 0) == position_from(
                feature_ids(),
                feature_id@,
                k as nat,
            ),
        decreases table@.len() - k,
    {
        let id = chars::chars_of(table[k].id);
        if chars::same_chars(id.as_slice(), wanted.as_slice()) {
            proof {
                assert(feature_ids()[k as int] == feature_id@);
                assert(position_from(feature_ids(), feature_id@, k as nat) == Some(k as int));
                assert(enabled@[k as int] == flag_or(Some(s.entries@), feature_ids()[k as int], true));
            }
            return enabled[k];
        }
        k += 1;
    }
    true
}

/// All settings, from one read. The options page and the popup build their UI from it.
pub struct Snapshot {
    /// Is the extension enabled?
    pub enabled: bool,
    /// In the order of the features.
    pub features: Vec<bool>,
    /// In the order of the switches.
    pub switches: Vec<bool>,
    /// In the order of the lists.
    pub choices: Vec<String>,
}

/// Every setting of one read.
pub fn snapshot_of(stored: &Stored) -> (snap: Snapshot)
    ensures
        snap.enabled == flag_or(Some(stored.entries@), ENABLED@, ENABLED_DEFAULT),
        snap.features@.len() == feature_ids().len(),
        forall|i: int|
            0 <= i < snap.features@.len() ==> #[trigger] snap.features@[i] == flag_or(
                Some(stored.entries@),
                feature_ids()[i],
                true,
            ),
        snap.switches@.len() == switch_ids().len(),
        forall|i: int|
            0 <= i < snap.switches@.len() ==> #[trigger] snap.switches@[i] == flag_or(
                Some(stored.entries@),
                switch_ids()[i],
                switch_defaults()[i],
            ),
        snap.choices@.len() == choice_ids().len(),
        forall|i: int|
            0 <= i < snap.choices@.len() ==> (#[trigger] snap.choices@[i])@ == match stored_value(
                stored.entries@,
                choice_ids()[i],
            ) {
                Some(StoredValue::Text(t)) => t@,
                _ => choice_defaults()[i],
            },
{
    let features = features_from(stored);
    let table = switches();
    let mut switches: Vec<bool> = Vec::new();
    let mut k: usize = 0;
    while k < table.len()
        invariant
            switches_table_ok(table@),
            k <= table@.len(),
            switches@.len() == k,
            forall|i: int|
                0 <= i < k ==> #[trigger] switches@[i] == flag_or(
                    Some(stored.entries@),
                    switch_ids()[i],
                    switch_defaults()[i],
                ),
        decreases table@.len() - k,
    {
        switches.push(stored.flag_or(table[k].id, table[k].default));
        k += 1;
    }
    let lists = choices();
    let mut values: Vec<String> = Vec::new();
    let mut k: usize = 0;
    while k < lists.len()
        invariant
            choices_table_ok(lists@),
            k <= lists@.len(),
            values@.len() == k,
            forall|i: int|
                0 <= i < k ==> (#[trigger] values@[i])@ == match stored_value(
                    stored.entries@,
                    choice_ids()[i],
                ) {
                    Some(StoredValue::Text(t)) => t@,
                    _ => choice_defaults()[i],
                },
        decreases lists@.len() - k,
    {
        let value = match stored.position(lists[k].id) {
            Some(i) => match &stored.entries[i].1 {
                StoredValue::Text(text) => chars::string_of(
                    chars::chars_of(text.as_str()).as_slice(),
                ),
                _ => chars::string_of(chars::chars_of(lists[k].default).as_slice()),
            },
            None => chars::string_of(chars::chars_of(lists[k].default).as_slice()),
        };
        values.push(value);
        k += 1;
    }
    Snapshot {
        enabled: stored.flag_or(ENABLED, ENABLED_DEFAULT),
        features,
        switches,
        choices: values,
    }
}

/// The settings that were read, kept for the page (or for one start of the service
/// worker), so that a read is one round trip and not one per place that asks.
pub struct SettingsCache {
    pub stored: Option<Stored>,
}

impl SettingsCache {
    /// Nothing read yet.
    pub fn new() -> (cache: SettingsCache)
        ensures
            cache.stored is None,
    {
        SettingsCache { stored: None }
    }

    /// Keep what was read.
    pub fn remember(&mut self, fresh: Stored)
        ensures
            final(self).stored == Some(fresh),
    {
        self.stored = Some(fresh);
    }

    /// What was read, if anything is kept.
    pub fn cached(&self) -> (r: Option<&Stored>)
        ensures
            r == match self.stored {
                Some(s) => Some(&s),
                None => None::<&Stored>,
            },
    {
        match &self.stored {
            Some(s) => Some(s),
            None => None,
        }
    }
}

/// Discard the copy. Call it after a change of the settings: the next read then asks
/// the storage again.
pub fn invalidate(cache: &mut SettingsCache)
    ensures
        final(cache).stored is None,
{
    cache.stored = None;
}

/// The value of a stored flag or text, as plain values.
pub open spec fn value_view(v: StoredValue) -> Option<Result<bool, Seq<char>>> {
    match v {
        StoredValue::Flag(b) => Some(Ok(b)),
        StoredValue::Text(t) => Some(Err(t@)),
        StoredValue::Other => None,
    }
}

/// What a setting that was never written reads as: every feature on, the extension
/// enabled, each switch and each list at its default; in this order.
pub open spec fn default_entries() -> Seq<(Seq<char>, Option<Result<bool, Seq<char>>>)> {
    feature_ids().map_values(|id: Seq<char>| (id, Some(Ok(true)))) + seq![
        (ENABLED@, Some(Ok(ENABLED_DEFAULT))),
    ] + switch_ids().map_values(|id: Seq<char>| (id, Some(Ok(true)))) + seq![
        (choice_ids()[0], Some(Err(choice_defaults()[0]))),
        (choice_ids()[1], Some(Err(choice_defaults()[1]))),
        (choice_ids()[2], Some(Err(choice_defaults()[2]))),
        (choice_ids()[3], Some(Err(choice_defaults()[3]))),
        (choice_ids()[4], Some(Err(choice_defaults()[4]))),
    ]
}

/// The defaults, for `chrome.storage.sync.get`: a setting that was never written then
/// reads as its default.
pub fn defaults() -> (v: Vec<(&'static str, StoredValue)>)
    ensures
        v@.map_values(|e: (&'static str, StoredValue)| (e.0@, value_view(e.1))) == default_entries(),
{
    let mut v: Vec<(&'static str, StoredValue)> = Vec::new();
    let table = features();
    let mut i: usize = 0;
    while i < table.len()
        invariant
            features_table_ok(table@),
            i <= table@.len(),
            v@.len() == i,
            forall|k: int|
                0 <= k < i ==> #[trigger] v@[k].0@ == feature_ids()[k] && value_view(v@[k].1)
                    == Some(Ok::<bool, Seq<char>>(true)),
        decreases table@.len() - i,
    {
        let ghost before = v@;
        v.push((table[i].id, StoredValue::Flag(true)));
        proof {
            assert forall|k: int| 0 <= k < i + 1 implies #[trigger] v@[k].0@ == feature_ids()[k]
                && value_view(v@[k].1) == Some(Ok::<bool, Seq<char>>(true)) by {
                if k < i {
                    assert(v@[k] == before[k]);
                }
            }
        }
        i += 1;
    }
    let ghost first = v@;
    v.push((ENABLED, StoredValue::Flag(ENABLED_DEFAULT)));
    let lists = switches();
    let ghost head = v@;
    let mut j: usize = 0;
    while j < lists.len()
        invariant
            switches_table_ok(lists@),
            j <= lists@.len(),
            v@.len() == head.len() + j,
            v@.take(head.len() as int) == head,
            forall|k: int|
                0 <= k < j ==> #[trigger] v@[head.len() + k].0@ == switch_ids()[k] && value_view(
                    v@[head.len() + k].1,
                ) == Some(Ok::<bool, Seq<char>>(switch_defaults()[k])),
        decreases lists@.len() - j,
    {
        v.push((lists[j].id, StoredValue::Flag(lists[j].default)));
        proof {
            assert(v@.take(head.len() as int) =~= head);
        }
        j += 1;
    }
    let table = choices();
    let ghost middle = v@;
    let mut k: usize = 0;
    while k < table.len()
        invariant
            choices_table_ok(table@),
            k <= table@.len(),
            v@.len() == middle.len() + k,
            v@.take(middle.len() as int) == middle,
            forall|m: int|
                middle.len() <= m < v@.len() ==> (#[trigger] v@[m]).0@ == choice_ids()[m
                    - middle.len()] && value_view(v@[m].1) == Some(
                    Err::<bool, Seq<char>>(choice_defaults()[m - middle.len()]),
                ),
        decreases table@.len() - k,
    {
        let text = chars::string_of(chars::chars_of(table[k].default).as_slice());
        let ghost before = v@;
        v.push((table[k].id, StoredValue::Text(text)));
        proof {
            assert(v@.take(middle.len() as int) =~= middle);
            assert forall|m: int| middle.len() <= m < v@.len() implies (#[trigger] v@[m]).0@
                == choice_ids()[m - middle.len()] && value_view(v@[m].1) == Some(
                Err::<bool, Seq<char>>(choice_defaults()[m - middle.len()]),
            ) by {
                if m < v@.len() - 1 {
                    assert(v@[m] == before[m]);
                } else {
                    assert(table@[k as int].id@ == choice_ids()[k as int]);
                    assert(table@[k as int].default@ == choice_defaults()[k as int]);
                }
            }
        }
        k += 1;
    }
    proof {
        let views = v@.map_values(|e: (&'static str, StoredValue)| (e.0@, value_view(e.1)));
        let d = default_entries();
        let fa = feature_ids().map_values(|id: Seq<char>| (id, Some(Ok::<bool, Seq<char>>(true))));
        let sw = switch_ids().map_values(|id: Seq<char>| (id, Some(Ok::<bool, Seq<char>>(true))));
        assert(views.len() == d.len());
        assert forall|x: int| 0 <= x < views.len() implies views[x] == d[x] by {
            assert(views[x] == (v@[x].0@, value_view(v@[x].1)));
            if x < 15 {
                assert(v@.take(middle.len() as int)[x] == v@[x]);
                assert(v@[x] == middle[x]);
            }
            if x < 12 {
                assert(middle.take(head.len() as int)[x] == middle[x]);
                assert(middle[x] == head[x]);
            }
            if x < 11 {
                assert(head[x] == first[x]);
                assert(fa[x] == (feature_ids()[x], Some(Ok::<bool, Seq<char>>(true))));
            } else if x == 11 {
                assert(head[x] == (ENABLED, StoredValue::Flag(ENABLED_DEFAULT)));
            } else if x < 15 {
                assert(v@[head.len() + (x - 12)].0@ == switch_ids()[x - 12]);
                assert(sw[x - 12] == (switch_ids()[x - 12], Some(Ok::<bool, Seq<char>>(true))));
            } else {
                assert(v@[x].0@ == choice_ids()[x - 15]);
            }
        }
        assert(views =~= d);
    }
    v
}

proof fn lemma_feature_ids_distinct()
    ensures
        forall|i: int, j: int|
            0 <= i < j < feature_ids().len() ==> feature_ids()[i] != feature_ids()[j],
{
    reveal_strlit("list-grid");
    reveal_strlit("episode-grid");
    reveal_strlit("no-promo");
    reveal_strlit("top-page");
    reveal_strlit("work-hero");
    reveal_strlit("work-detail");
    reveal_strlit("infinite-scroll");
    reveal_strlit("player-modal");
    reveal_strlit("search-overlay");
    reveal_strlit("comments");
    reveal_strlit("debug-view");
    let ids = feature_ids();
    assert forall|i: int, j: int| 0 <= i < j < ids.len() implies ids[i] != ids[j] by {
        if ids[i].len() == ids[j].len() {
            assert(ids[i][0] != ids[j][0] || ids[i][1] != ids[j][1] || ids[i][2] != ids[j][2]);
        }
    }
}

/// Asking whether one feature is on gives the same answer as the list of the features
/// that are on, at the place of that feature.
pub proof fn lemma_feature_on_agrees(entries: Option<Seq<(String, StoredValue)>>, i: int)
    requires
        0 <= i < feature_ids().len(),
    ensures
        (match position_from(feature_ids(), feature_ids()[i], 0) {
            Some(k) => flag_or(entries, feature_ids()[k], true),
            None => true,
        }) == flag_or(entries, feature_ids()[i], true),
{
    lemma_feature_ids_distinct();
    lemma_position_from(feature_ids(), feature_ids()[i], 0);
    match position_from(feature_ids(), feature_ids()[i], 0) {
        Some(k) => {
            if k != i {
                if k < i {
                    assert(feature_ids()[k] != feature_ids()[i]);
                } else {
                    assert(feature_ids()[i] != feature_ids()[k]);
                }
            }
        },
        None => {},
    }
}

/// The keys of the defaults, in their order.
pub open spec fn default_keys() -> Seq<Seq<char>> {
    default_entries().map_values(|e: (Seq<char>, Option<Result<bool, Seq<char>>>)| e.0)
}

proof fn lemma_choice_ids_fresh(k: int)
    requires
        0 <= k < choice_ids().len(),
    ensures
        forall|j: int| 0 <= j < 15 + k ==> default_keys()[j] != choice_ids()[k],
        default_keys()[15 + k] == choice_ids()[k],
        default_keys().len() == 20,
{
    reveal_strlit("list-grid");
    reveal_strlit("episode-grid");
    reveal_strlit("no-promo");
    reveal_strlit("top-page");
    reveal_strlit("work-hero");
    reveal_strlit("work-detail");
    reveal_strlit("infinite-scroll");
    reveal_strlit("player-modal");
    reveal_strlit("search-overlay");
    reveal_strlit("comments");
    reveal_strlit("debug-view");
    reveal_strlit("enabled");
    reveal_strlit("search-no-rental");
    reveal_strlit("player-skip");
    reveal_strlit("search-shortcuts");
    reveal_strlit("danmaku-fps");
    reveal_strlit("danmaku-duration");
    reveal_strlit("search-sort");
    reveal_strlit("card-min-width");
    reveal_strlit("thumb-size");
    let keys = default_keys();
    assert(keys.len() == 20);
    assert forall|j: int| 0 <= j < 15 + k implies keys[j] != choice_ids()[k] by {
        let a = keys[j];
        let b = choice_ids()[k];
        if a.len() == b.len() {
            assert(a[0] != b[0] || a[1] != b[1] || a[2] != b[2] || a[8] != b[8]);
        }
    }
}

/// Settings that hold the defaults, and nothing else, read back as the defaults: every
/// feature on, the extension enabled, each switch and each list at its default. This is
/// what makes a setting that was never written read as its default.
pub proof fn lemma_defaults_read_back(entries: Seq<(String, StoredValue)>)
    requires
        entries.map_values(|e: (String, StoredValue)| (e.0@, value_view(e.1)))
            == default_entries(),
    ensures
        forall|i: int|
            0 <= i < feature_ids().len() ==> #[trigger] flag_or(
                Some(entries),
                feature_ids()[i],
                true,
            ),
        flag_or(Some(entries), ENABLED@, ENABLED_DEFAULT) == ENABLED_DEFAULT,
        forall|k: int|
            0 <= k < switch_ids().len() ==> #[trigger] flag_or(
                Some(entries),
                switch_ids()[k],
                switch_default_of(switch_ids()[k]),
            ) == switch_defaults()[k],
        forall|k: int|
            0 <= k < choice_ids().len() ==> #[trigger] choice_read(Some(entries), choice_ids()[k])
                == choice_defaults()[k],
{
    let d = default_entries();
    let keys = entry_keys(entries);
    assert(entries.len() == d.len());
    assert(keys =~= default_keys());
    assert forall|j: int| 0 <= j < 15 implies #[trigger] value_view(entries[j].1) == Some(
        Ok::<bool, Seq<char>>(true),
    ) by {
        assert(entries.map_values(|e: (String, StoredValue)| (e.0@, value_view(e.1)))[j] == d[j]);
    }
    assert forall|at: int| 0 <= at < 15 implies stored_value(entries, #[trigger] keys[at]) == Some(
        StoredValue::Flag(true),
    ) by {
        lemma_position_from(keys, keys[at], 0);
        let p = position_from(keys, keys[at], 0)->0;
        assert(value_view(entries[p].1) == Some(Ok::<bool, Seq<char>>(true)));
    }
    assert forall|i: int| 0 <= i < feature_ids().len() implies #[trigger] flag_or(
        Some(entries),
        feature_ids()[i],
        true,
    ) by {
        assert(keys[i] == feature_ids()[i]);
        assert(stored_value(entries, keys[i]) == Some(StoredValue::Flag(true)));
    }
    assert(keys[11] == ENABLED@);
    assert(stored_value(entries, keys[11]) == Some(StoredValue::Flag(true)));
    assert forall|k: int| 0 <= k < switch_ids().len() implies #[trigger] flag_or(
        Some(entries),
        switch_ids()[k],
        switch_default_of(switch_ids()[k]),
    ) == switch_defaults()[k] by {
        assert(keys[12 + k] == switch_ids()[k]);
        assert(stored_value(entries, keys[12 + k]) == Some(StoredValue::Flag(true)));
    }
    assert forall|k: int| 0 <= k < choice_ids().len() implies #[trigger] choice_read(
        Some(entries),
        choice_ids()[k],
    ) == choice_defaults()[k] by {
        lemma_choice_ids_fresh(k);
        lemma_position_from(keys, choice_ids()[k], 0);
        assert(position_from(keys, choice_ids()[k], 0) == Some(15 + k));
        assert(entries.map_values(|e: (String, StoredValue)| (e.0@, value_view(e.1)))[15 + k]
            == d[15 + k]);
    }
}

/// The entries after `key` was written with `value`: the new entry comes first, so it
/// is the one that is read.
pub open spec fn written(entries: Seq<(String, StoredValue)>, key: String, value: StoredValue) -> Seq<
    (String, StoredValue),
> {
    seq![(key, value)] + entries
}

proof fn lemma_position_shift(x: Seq<char>, ids: Seq<Seq<char>>, id: Seq<char>, k: nat)
    ensures
        position_from(seq![x] + ids, id, k + 1) == match position_from(ids, id, k) {
            Some(i) => Some(i + 1),
            None => None,
        },
    decreases ids.len() - k,
{
    let all = seq![x] + ids;
    if k < ids.len() {
        assert(all[(k + 1) as int] == ids[k as int]);
        if ids[k as int] != id {
            lemma_position_shift(x, ids, id, k + 1);
        }
    }
}

/// A setting read after it was written gives what was written, and every other setting
/// reads as before: a list (`choice_from`) and a flag (`switch_from`, `features_from`)
/// alike.
pub proof fn lemma_read_after_write(
    entries: Seq<(String, StoredValue)>,
    key: String,
    value: StoredValue,
    other: Seq<char>,
    fallback: bool,
)
    requires
        other != key@,
    ensures
        stored_value(written(entries, key, value), key@) == Some(value),
        value matches StoredValue::Text(t) ==> choice_read(Some(written(entries, key, value)), key@)
            == t@,
        value matches StoredValue::Flag(b) ==> flag_or(
            Some(written(entries, key, value)),
            key@,
            fallback,
        ) == b,
        stored_value(written(entries, key, value), other) == stored_value(entries, other),
        choice_read(Some(written(entries, key, value)), other) == choice_read(Some(entries), other),
        flag_or(Some(written(entries, key, value)), other, fallback) == flag_or(
            Some(entries),
            other,
            fallback,
        ),
{
    let w = written(entries, key, value);
    assert(entry_keys(w) =~= seq![key@] + entry_keys(entries));
    lemma_position_shift(key@, entry_keys(entries), other, 0);
    match position_from(entry_keys(entries), other, 0) {
        Some(i) => {
            lemma_position_from(entry_keys(entries), other, 0);
            assert(w[i + 1] == entries[i]);
        },
        None => {},
    }
}

} // verus!
