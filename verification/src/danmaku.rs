//! What the commands of a comment say about its look.

use vstd::prelude::*;

use crate::chars;

verus! {

/// The colour of a comment without a colour command.
pub const DEFAULT_COLOR: &'static str = "#ffffff";

/// The named colours of nicovideo, the premium ones with their two names.
pub const NAMED_COLORS: [(&'static str, &'static str); 28] = [
    ("red", "#ff0000"),
    ("pink", "#ff8080"),
    ("orange", "#ffc000"),
    ("yellow", "#ffff00"),
    ("green", "#00ff00"),
    ("cyan", "#00ffff"),
    ("blue", "#0000ff"),
    ("purple", "#c000ff"),
    ("black", "#000000"),
    ("white", "#ffffff"),
    ("white2", "#cccc99"),
    ("niconicowhite", "#cccc99"),
    ("red2", "#cc0033"),
    ("truered", "#cc0033"),
    ("pink2", "#ff33cc"),
    ("orange2", "#ff6600"),
    ("passionorange", "#ff6600"),
    ("yellow2", "#999900"),
    ("madyellow", "#999900"),
    ("green2", "#00cc66"),
    ("elementalgreen", "#00cc66"),
    ("cyan2", "#00cccc"),
    ("blue2", "#3399ff"),
    ("marineblue", "#3399ff"),
    ("purple2", "#6633cc"),
    ("nobleviolet", "#6633cc"),
    ("black2", "#666666"),
    ("niconicoblack", "#666666"),
];

/// Where a comment is drawn.
#[derive(PartialEq, Eq, Clone, Copy, Debug, Structural)]
pub enum Position {
    /// Moves from right to left.
    Naka,
    /// Fixed at the top.
    Ue,
    /// Fixed at the bottom.
    Shita,
}

/// The size of the font: on the 384px height of nicovideo, medium is 24px, small 15px
/// and big 39px.
#[derive(PartialEq, Eq, Clone, Copy, Debug, Structural)]
pub enum Size {
    Medium,
    Small,
    Big,
}

/// The first row of `NAMED_COLORS` from `k` on with this name.
pub open spec fn named_row_from(name: Seq<char>, k: int) -> Option<int>
    decreases NAMED_COLORS@.len() - k,
{
    if k < 0 || k >= NAMED_COLORS@.len() {
        None
    } else if NAMED_COLORS@[k].0@ == name {
        Some(k)
    } else {
        named_row_from(name, k + 1)
    }
}

/// An ASCII hexadecimal digit.
pub open spec fn is_hex(c: char) -> bool {
    ('0' <= c && c <= '9') || ('a' <= c && c <= 'f') || ('A' <= c && c <= 'F')
}

/// `#RRGGBB`: a colour that a premium member can give directly.
pub open spec fn is_hex_color(s: Seq<char>) -> bool {
    s.len() == 7 && s[0] == '#' && forall|i: int| 1 <= i < 7 ==> is_hex(#[trigger] s[i])
}

/// The colour of the first command from `k` on that is a colour: a name, or `#RRGGBB`
/// as it is; white without one.
pub open spec fn color_from(commands: Seq<Seq<char>>, k: int) -> Seq<char>
    decreases commands.len() - k,
{
    if k < 0 || k >= commands.len() {
        DEFAULT_COLOR@
    } else {
        match named_row_from(commands[k], 0) {
            Some(i) => NAMED_COLORS@[i].1@,
            None => if is_hex_color(commands[k]) {
                commands[k]
            } else {
                color_from(commands, k + 1)
            },
        }
    }
}

/// The views of some commands.
pub open spec fn command_views(commands: Seq<String>) -> Seq<Seq<char>> {
    commands.map_values(|c: String| c@)
}

fn is_hex_char(c: char) -> (r: bool)
    ensures
        r == is_hex(c),
{
    ('0' <= c && c <= '9') || ('a' <= c && c <= 'f') || ('A' <= c && c <= 'F')
}

fn hex_color(s: &[char]) -> (r: bool)
    ensures
        r == is_hex_color(s@),
{
    if s.len() != 7 || s[0] != '#' {
        return false;
    }
    let mut i: usize = 1;
    while i < 7
        invariant
            1 <= i <= 7,
            s@.len() == 7,
            forall|j: int| 1 <= j < i ==> is_hex(#[trigger] s@[j]),
        decreases 7 - i,
    {
        if !is_hex_char(s[i]) {
            return false;
        }
        i += 1;
    }
    true
}

/// The row of a colour name.
fn named_row(name: &[char]) -> (r: Option<usize>)
    ensures
        r matches Some(i) ==> named_row_from(name@, 0) == Some(i as int) && i < NAMED_COLORS@.len(),
        r is None ==> named_row_from(name@, 0) is None,
{
    let mut k: usize = 0;
    while k < NAMED_COLORS.len()
        invariant
            k <= NAMED_COLORS@.len(),
            named_row_from(name@, 0) == named_row_from(name@, k as int),
        decreases NAMED_COLORS@.len() - k,
    {
        let row = NAMED_COLORS[k];
        if chars::same_chars(chars::chars_of(row.0).as_slice(), name) {
            return Some(k);
        }
        k += 1;
    }
    None
}

/// The colour from the commands. Also `#RRGGBB` (premium). Default is white.
pub fn color_of(commands: &[String]) -> (r: String)
    ensures
        r@ == color_from(command_views(commands@), 0),
{
    let ghost views = command_views(commands@);
    let mut k: usize = 0;
    while k < commands.len()
        invariant
            k <= commands@.len(),
            views == command_views(commands@),
            color_from(views, 0) == color_from(views, k as int),
        decreases commands@.len() - k,
    {
        let command = chars::chars_of(commands[k].as_str());
        proof {
            assert(views[k as int] == commands@[k as int]@);
        }
        match named_row(command.as_slice()) {
            Some(i) => {
                let row = NAMED_COLORS[i];
                return chars::string_of(chars::chars_of(row.1).as_slice());
            },
            None => {},
        }
        if hex_color(command.as_slice()) {
            return commands[k].clone();
        }
        k += 1;
    }
    chars::string_of(chars::chars_of(DEFAULT_COLOR).as_slice())
}

/// The position of the first command that gives one (`ue`, `shita`); moving without.
pub open spec fn position_from(commands: Seq<Seq<char>>, k: int) -> Position
    decreases commands.len() - k,
{
    if k < 0 || k >= commands.len() {
        Position::Naka
    } else if commands[k] == "ue"@ {
        Position::Ue
    } else if commands[k] == "shita"@ {
        Position::Shita
    } else {
        position_from(commands, k + 1)
    }
}

/// The position from the commands.
pub fn position_of(commands: &[String]) -> (r: Position)
    ensures
        r == position_from(command_views(commands@), 0),
{
    let ghost views = command_views(commands@);
    let ue = chars::chars_of("ue");
    let shita = chars::chars_of("shita");
    let mut k: usize = 0;
    while k < commands.len()
        invariant
            k <= commands@.len(),
            views == command_views(commands@),
            ue@ == "ue"@,
            shita@ == "shita"@,
            position_from(views, 0) == position_from(views, k as int),
        decreases commands@.len() - k,
    {
        let command = chars::chars_of(commands[k].as_str());
        proof {
            assert(views[k as int] == commands@[k as int]@);
        }
        if chars::same_chars(command.as_slice(), ue.as_slice()) {
            return Position::Ue;
        }
        if chars::same_chars(command.as_slice(), shita.as_slice()) {
            return Position::Shita;
        }
        k += 1;
    }
    Position::Naka
}

/// The size of the first command that gives one (`big`, `small`); medium without.
pub open spec fn size_from(commands: Seq<Seq<char>>, k: int) -> Size
    decreases commands.len() - k,
{
    if k < 0 || k >= commands.len() {
        Size::Medium
    } else if commands[k] == "big"@ {
        Size::Big
    } else if commands[k] == "small"@ {
        Size::Small
    } else {
        size_from(commands, k + 1)
    }
}

/// The font size from the commands.
pub fn size_of(commands: &[String]) -> (r: Size)
    ensures
        r == size_from(command_views(commands@), 0),
{
    let ghost views = command_views(commands@);
    let big = chars::chars_of("big");
    let small = chars::chars_of("small");
    let mut k: usize = 0;
    while k < commands.len()
        invariant
            k <= commands@.len(),
            views == command_views(commands@),
            big@ == "big"@,
            small@ == "small"@,
            size_from(views, 0) == size_from(views, k as int),
        decreases commands@.len() - k,
    {
        let command = chars::chars_of(commands[k].as_str());
        proof {
            assert(views[k as int] == commands@[k as int]@);
        }
        if chars::same_chars(command.as_slice(), big.as_slice()) {
            return Size::Big;
        }
        if chars::same_chars(command.as_slice(), small.as_slice()) {
            return Size::Small;
        }
        k += 1;
    }
    Size::Medium
}

/// The text on one line: a line break would break the lanes.
pub open spec fn one_line_of(text: Seq<char>) -> Seq<char> {
    text.map_values(|c: char| if c == '\n' || c == '\r' { ' ' } else { c })
}

/// The text of a comment with every line break made a space.
pub fn one_line(text: &str) -> (r: String)
    ensures
        r@ == one_line_of(text@),
{
    let s = chars::chars_of(text);
    let mut out: Vec<char> = Vec::new();
    let mut i: usize = 0;
    while i < s.len()
        invariant
            i <= s@.len(),
            s@ == text@,
            out@ == one_line_of(s@.take(i as int)),
        decreases s@.len() - i,
    {
        let c = s[i];
        out.push(if c == '\n' || c == '\r' { ' ' } else { c });
        proof {
            assert(out@ =~= one_line_of(s@.take(i + 1)));
        }
        i += 1;
    }
    proof {
        assert(s@.take(s@.len() as int) =~= s@);
    }
    chars::string_of(out.as_slice())
}

/// Are the lanes `i .. i + span` all free?
pub open spec fn window_free(free: Seq<bool>, i: int, span: int) -> bool {
    forall|j: int| i <= j < i + span ==> #[trigger] free[j]
}

/// The first lane from which `span` lanes in a row are free (a large comment takes more
/// than one lane), or `None` where no such lanes are left.
pub fn first_free_lane(free: &Vec<bool>, span: usize) -> (r: Option<usize>)
    requires
        span <= free@.len(),
    ensures
        match r {
            Some(i) => i + span <= free@.len() && window_free(free@, i as int, span as int)
                && forall|k: int| 0 <= k < i ==> !window_free(free@, k, span as int),
            None => forall|k: int|
                0 <= k && k + span <= free@.len() ==> !window_free(free@, k, span as int),
        },
{
    let last = free.len() - span;
    let mut i: usize = 0;
    while i <= last
        invariant
            last == free@.len() - span,
            span <= free@.len(),
            i <= last,
            forall|k: int| 0 <= k < i ==> !window_free(free@, k, span as int),
        decreases last - i,
    {
        let mut j: usize = 0;
        let mut all = true;
        while j < span
            invariant
                i <= last,
                last == free@.len() - span,
                span <= free@.len(),
                i + span <= free.len(),
                j <= span,
                all == (forall|m: int| i <= m < i + j ==> #[trigger] free@[m]),
            decreases span - j,
        {
            if !free[i + j] {
                all = false;
            }
            j += 1;
        }
        if all {
            return Some(i);
        }
        if i == last {
            return None;
        }
        i += 1;
    }
    None
}

/// The name of a `readyState` of a media element, for the debug view.
pub fn ready_state_name(state: u16) -> (r: &'static str)
    ensures
        r == match state {
            0 => "未取得",
            1 => "メタデータのみ",
            2 => "現在位置のみ",
            3 => "先まで再生可",
            4 => "十分",
            _ => "不明",
        },
{
    match state {
        0 => "未取得",
        1 => "メタデータのみ",
        2 => "現在位置のみ",
        3 => "先まで再生可",
        4 => "十分",
        _ => "不明",
    }
}

/// The name of a `networkState` of a media element, for the debug view.
pub fn network_state_name(state: u16) -> (r: &'static str)
    ensures
        r == match state {
            0 => "空",
            1 => "待機",
            2 => "読み込み中",
            3 => "ソースなし",
            _ => "不明",
        },
{
    match state {
        0 => "空",
        1 => "待機",
        2 => "読み込み中",
        3 => "ソースなし",
        _ => "不明",
    }
}

/// `#` and six ASCII hexadecimal digits, in either case.
pub open spec fn is_rgb_command(s: Seq<char>) -> bool {
    &&& s.len() == 7
    &&& s[0] == '#'
    &&& forall|i: int|
        1 <= i < 7 ==> ('0' <= #[trigger] s[i] <= '9') || ('a' <= s[i] <= 'f') || ('A' <= s[i]
            <= 'F')
}

proof fn lemma_name_is_word(k: int)
    requires
        0 <= k < NAMED_COLORS@.len(),
    ensures
        NAMED_COLORS@[k].0@.len() > 0 && NAMED_COLORS@[k].0@[0] != '#',
{
    if k == 0 {
        reveal_strlit("red");
    } else if k == 1 {
        reveal_strlit("pink");
    } else if k == 2 {
        reveal_strlit("orange");
    } else if k == 3 {
        reveal_strlit("yellow");
    } else if k == 4 {
        reveal_strlit("green");
    } else if k == 5 {
        reveal_strlit("cyan");
    } else if k == 6 {
        reveal_strlit("blue");
    } else if k == 7 {
        reveal_strlit("purple");
    } else if k == 8 {
        reveal_strlit("black");
    } else if k == 9 {
        reveal_strlit("white");
    } else if k == 10 {
        reveal_strlit("white2");
    } else if k == 11 {
        reveal_strlit("niconicowhite");
    } else if k == 12 {
        reveal_strlit("red2");
    } else if k == 13 {
        reveal_strlit("truered");
    } else if k == 14 {
        reveal_strlit("pink2");
    } else if k == 15 {
        reveal_strlit("orange2");
    } else if k == 16 {
        reveal_strlit("passionorange");
    } else if k == 17 {
        reveal_strlit("yellow2");
    } else if k == 18 {
        reveal_strlit("madyellow");
    } else if k == 19 {
        reveal_strlit("green2");
    } else if k == 20 {
        reveal_strlit("elementalgreen");
    } else if k == 21 {
        reveal_strlit("cyan2");
    } else if k == 22 {
        reveal_strlit("blue2");
    } else if k == 23 {
        reveal_strlit("marineblue");
    } else if k == 24 {
        reveal_strlit("purple2");
    } else if k == 25 {
        reveal_strlit("nobleviolet");
    } else if k == 26 {
        reveal_strlit("black2");
    } else if k == 27 {
        reveal_strlit("niconicoblack");
    }
}

/// No colour name starts with `#`, so a `#RRGGBB` command is never read as a name.
proof fn lemma_rgb_is_no_name(c: Seq<char>, k: int)
    requires
        c.len() > 0 && c[0] == '#',
        0 <= k,
    ensures
        named_row_from(c, k) is None,
    decreases NAMED_COLORS@.len() - k,
{
    if k < NAMED_COLORS@.len() {
        lemma_name_is_word(k);
        lemma_rgb_is_no_name(c, k + 1);
    }
}

/// A direct colour `#RRGGBB` (digits `0`-`9`, `a`-`f` or `A`-`F`) is drawn as it is when
/// it is the first colour among the commands: neither a name nor such a colour comes
/// before it.
pub proof fn lemma_rgb_colour_is_kept(commands: Seq<Seq<char>>, k: int)
    requires
        0 <= k < commands.len(),
        is_rgb_command(commands[k]),
        forall|j: int|
            0 <= j < k ==> named_row_from(#[trigger] commands[j], 0) is None && !is_rgb_command(
                commands[j],
            ),
    ensures
        color_from(commands, 0) == commands[k],
{
    lemma_rgb_from(commands, 0, k);
}

proof fn lemma_rgb_from(commands: Seq<Seq<char>>, from: int, k: int)
    requires
        0 <= from <= k < commands.len(),
        is_rgb_command(commands[k]),
        forall|j: int|
            0 <= j < k ==> named_row_from(#[trigger] commands[j], 0) is None && !is_rgb_command(
                commands[j],
            ),
    ensures
        color_from(commands, from) == commands[k],
    decreases k - from,
{
    if from < k {
        assert(!is_hex_color(commands[from])) by {
            if is_hex_color(commands[from]) {
                assert forall|i: int| 1 <= i < 7 implies ('0' <= #[trigger] commands[from][i] <= '9')
                    || ('a' <= commands[from][i] <= 'f') || ('A' <= commands[from][i] <= 'F') by {
                    assert(is_hex(commands[from][i]));
                }
            }
        }
        lemma_rgb_from(commands, from + 1, k);
    } else {
        lemma_rgb_is_no_name(commands[k], 0);
        assert(is_hex_color(commands[k]));
    }
}

/// One command `#RRGGBB` gives that colour, in either case of its digits.
pub proof fn lemma_rgb_command_alone(c: Seq<char>)
    requires
        is_rgb_command(c),
    ensures
        color_from(seq![c], 0) == c,
{
    lemma_rgb_from(seq![c], 0, 0);
}

} // verus!
