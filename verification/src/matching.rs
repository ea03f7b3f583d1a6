//! Selects the nicovideo video of a dAnime episode.
//!
//! The official channel titles its videos with the same text as dAnime, but with other
//! brackets, widths and spaces, and an episode number can be a kanji number. A bare
//! number is never used for a text match: `6` is also inside `第16話` and `シーズン6`.
//! Only a number written as an episode number counts (`第N話`, `第N回`, `#N`,
//! `Episode N`, `N話`, and the short forms `EPN` and `No.N`); a season (`第2期`) and the
//! number of a subtitle (`3回目の夏`) do not. Without certainty nothing is selected.

use vstd::prelude::*;

use crate::chars;

verus! {

// ---------------------------------------------------------------------------
// Width and spaces

/// One character in half width: full-width letters and digits, and some marks.
pub open spec fn half_width_char(c: char) -> char {
    if ('Ａ' <= c && c <= 'Ｚ') || ('ａ' <= c && c <= 'ｚ') || ('０' <= c && c <= '９') {
        ((c as u32) - 0xFEE0) as char
    } else if c == '：' {
        ':'
    } else if c == '＆' {
        '&'
    } else if c == '＃' {
        '#'
    } else if c == '\u{3000}' || c == '\u{a0}' {
        ' '
    } else {
        c
    }
}

pub open spec fn half_width(s: Seq<char>) -> Seq<char> {
    s.map_values(|c: char| half_width_char(c))
}

fn half_width_of(c: char) -> (r: char)
    ensures
        r == half_width_char(c),
{
    if ('Ａ' <= c && c <= 'Ｚ') || ('ａ' <= c && c <= 'ｚ') || ('０' <= c && c <= '９') {
        let code = (c as u32) - 0xFEE0;
        (code as u8) as char
    } else if c == '：' {
        ':'
    } else if c == '＆' {
        '&'
    } else if c == '＃' {
        '#'
    } else if c == '\u{3000}' || c == '\u{a0}' {
        ' '
    } else {
        c
    }
}

/// Full-width letters, digits and some marks to half width.
fn to_half_width(input: &[char]) -> (out: Vec<char>)
    ensures
        out@ == half_width(input@),
{
    let mut out: Vec<char> = Vec::new();
    let mut i: usize = 0;
    while i < input.len()
        invariant
            i <= input.len(),
            out@ == half_width(input@.take(i as int)),
        decreases input.len() - i,
    {
        out.push(half_width_of(input[i]));
        proof {
            assert(half_width(input@.take(i + 1)) =~= half_width(input@.take(i as int)).push(
                half_width_char(input@[i as int]),
            ));
        }
        i += 1;
    }
    proof {
        assert(input@.take(input.len() as int) =~= input@);
    }
    out
}


/// Without white space, after the width is made half: the form for a comparison.
pub open spec fn normalized(s: Seq<char>) -> Seq<char> {
    half_width(s).filter(|c: char| !chars::is_white(c))
}

/// The brackets and separators that two sites write differently.
pub open spec fn is_loose_mark(c: char) -> bool {
    ||| c == '「' || c == '」' || c == '『' || c == '』'
    ||| c == '（' || c == '）' || c == '(' || c == ')'
    ||| c == '【' || c == '】' || c == '〈' || c == '〉'
    ||| c == '《' || c == '》' || c == '[' || c == ']'
}

/// `normalized`, also without the brackets: the form for a comparison of titles.
pub open spec fn loosened(s: Seq<char>) -> Seq<char> {
    normalized(s).filter(|c: char| !is_loose_mark(c))
}

fn is_loose_mark_char(c: char) -> (r: bool)
    ensures
        r == is_loose_mark(c),
{
    c == '「' || c == '」' || c == '『' || c == '』' || c == '（' || c == '）' || c == '('
        || c == ')' || c == '【' || c == '】' || c == '〈' || c == '〉' || c == '《' || c == '》'
        || c == '[' || c == ']'
}

/// Remove the differences of the spaces and the widths, for a comparison.
fn normalize_for_compare(input: &[char]) -> (out: Vec<char>)
    ensures
        out@ == normalized(input@),
{
    let half = to_half_width(input);
    let mut out: Vec<char> = Vec::new();
    let mut i: usize = 0;
    while i < half.len()
        invariant
            i <= half.len(),
            half@ == half_width(input@),
            out@ == half@.take(i as int).filter(|c: char| !chars::is_white(c)),
        decreases half.len() - i,
    {
        let c = half[i];
        proof {
            reveal(Seq::filter);
            assert(half@.take(i + 1).drop_last() =~= half@.take(i as int));
        }
        if !chars::is_white_space(c) {
            out.push(c);
        }
        i += 1;
    }
    proof {
        assert(half@.take(half.len() as int) =~= half@);
    }
    out
}

/// Also remove the brackets and the separators, for a comparison of titles.
///
/// The same title can have other brackets on the two sites (`作品D 第二期` against
/// `「作品D」第二期`), and a text match would then fail although the titles agree.
fn normalize_loose(input: &[char]) -> (out: Vec<char>)
    ensures
        out@ == loosened(input@),
{
    let tight = normalize_for_compare(input);
    let mut out: Vec<char> = Vec::new();
    let mut i: usize = 0;
    while i < tight.len()
        invariant
            i <= tight.len(),
            tight@ == normalized(input@),
            out@ == tight@.take(i as int).filter(|c: char| !is_loose_mark(c)),
        decreases tight.len() - i,
    {
        let c = tight[i];
        proof {
            reveal(Seq::filter);
            assert(tight@.take(i + 1).drop_last() =~= tight@.take(i as int));
        }
        if !is_loose_mark_char(c) {
            out.push(c);
        }
        i += 1;
    }
    proof {
        assert(tight@.take(tight.len() as int) =~= tight@);
    }
    out
}

// ---------------------------------------------------------------------------
// Decoration of a work title

/// The closing bracket of a note that is removed with its text.
///
/// `「」` and `『』` are not here: a work title can be inside them (`「作品D」第二期`).
pub open spec fn note_closing(c: char) -> Option<char> {
    if c == '【' {
        Some('】')
    } else if c == '（' {
        Some('）')
    } else if c == '〈' {
        Some('〉')
    } else if c == '＜' {
        Some('＞')
    } else if c == '[' {
        Some(']')
    } else if c == '《' {
        Some('》')
    } else {
        None
    }
}

fn note_closing_of(c: char) -> (r: Option<char>)
    ensures
        r == note_closing(c),
{
    if c == '【' {
        Some('】')
    } else if c == '（' {
        Some('）')
    } else if c == '〈' {
        Some('〉')
    } else if c == '＜' {
        Some('＞')
    } else if c == '[' {
        Some(']')
    } else if c == '《' {
        Some('》')
    } else {
        None
    }
}

/// A left-to-right reading of `s`: the characters outside of the notes, and the
/// closing bracket that is still awaited at the end.
pub open spec fn note_scan(s: Seq<char>) -> (Seq<char>, Option<char>)
    decreases s.len(),
{
    if s.len() == 0 {
        (seq![], None)
    } else {
        let before = note_scan(s.drop_last());
        let c = s.last();
        match before.1 {
            None => match note_closing(c) {
                Some(close) => (before.0, Some(close)),
                None => (before.0.push(c), None),
            },
            Some(close) => if c == close {
                (before.0, None)
            } else {
                before
            },
        }
    }
}

/// The text without its notes in brackets. An open bracket without its pair leaves the
/// text as it is.
pub open spec fn without_notes(s: Seq<char>) -> Seq<char> {
    if note_scan(s).1 is Some {
        s
    } else {
        note_scan(s).0
    }
}

/// Remove a note in brackets, with its text.
fn strip_bracketed(input: &[char]) -> (out: Vec<char>)
    ensures
        out@ == without_notes(input@),
{
    let mut out: Vec<char> = Vec::new();
    let mut closing: Option<char> = None;
    let mut i: usize = 0;
    while i < input.len()
        invariant
            i <= input.len(),
            note_scan(input@.take(i as int)) == (out@, closing),
        decreases input.len() - i,
    {
        let c = input[i];
        proof {
            assert(input@.take(i + 1).drop_last() =~= input@.take(i as int));
        }
        match closing {
            None => {
                match note_closing_of(c) {
                    Some(close) => {
                        closing = Some(close);
                    },
                    None => {
                        out.push(c);
                    },
                }
            },
            Some(close) => {
                if c == close {
                    closing = None;
                }
            },
        }
        i += 1;
    }
    proof {
        assert(input@.take(input.len() as int) =~= input@);
    }
    if closing.is_some() {
        chars::slice_of(input, 0, input.len())
    } else {
        out
    }
}


/// The seasons that close a work title or name one, in the order of the test.
pub open spec fn season_words() -> Seq<Seq<char>> {
    seq![
        "第一期"@,
        "第二期"@,
        "第三期"@,
        "第四期"@,
        "第1期"@,
        "第2期"@,
        "第3期"@,
        "第4期"@,
    ]
}

fn season_words_list() -> (v: Vec<Vec<char>>)
    ensures
        v@.len() == season_words().len(),
        forall|k: int| 0 <= k < v@.len() ==> #[trigger] v@[k]@ == season_words()[k],
{
    let mut v: Vec<Vec<char>> = Vec::new();
    v.push(chars::chars_of("第一期"));
    v.push(chars::chars_of("第二期"));
    v.push(chars::chars_of("第三期"));
    v.push(chars::chars_of("第四期"));
    v.push(chars::chars_of("第1期"));
    v.push(chars::chars_of("第2期"));
    v.push(chars::chars_of("第3期"));
    v.push(chars::chars_of("第4期"));
    v
}

/// The text `t` (already without trailing space) without the first season of the list
/// from `k` on that closes it.
pub open spec fn season_cut(t: Seq<char>, k: nat) -> Seq<char>
    decreases season_words().len() - k,
{
    if k >= season_words().len() {
        t
    } else if chars::has_suffix(t, season_words()[k as int]) {
        chars::trimmed_end(t.subrange(0, t.len() - season_words()[k as int].len()))
    } else {
        season_cut(t, k + 1)
    }
}

pub open spec fn without_season_suffix(s: Seq<char>) -> Seq<char> {
    season_cut(chars::trimmed_end(s), 0)
}

/// Remove a season at the end, such as `第2期` or `第二期`.
fn strip_season_suffix(input: &[char]) -> (out: Vec<char>)
    ensures
        out@ == without_season_suffix(input@),
{
    let trimmed = chars::trim_end(input);
    let words = season_words_list();
    let mut k: usize = 0;
    while k < words.len()
        invariant
            k <= words@.len() == season_words().len(),
            forall|j: int| 0 <= j < words@.len() ==> #[trigger] words@[j]@ == season_words()[j],
            trimmed@ == chars::trimmed_end(input@),
            season_cut(trimmed@, 0) == season_cut(trimmed@, k as nat),
        decreases words.len() - k,
    {
        let word = &words[k];
        if chars::ends_with(trimmed.as_slice(), word.as_slice()) {
            let rest = chars::slice_of(trimmed.as_slice(), 0, trimmed.len() - word.len());
            return chars::trim_end(rest.as_slice());
        }
        k += 1;
    }
    trimmed
}

/// The words for the kind of medium that can start a work title, in the order of the
/// test.
pub open spec fn media_words() -> Seq<Seq<char>> {
    seq![
        "劇場版"@,
        "映画"@,
        "TVアニメーション"@,
        "TVアニメ"@,
        "テレビアニメーション"@,
        "テレビアニメ"@,
        "劇場アニメ"@,
        "アニメ"@,
    ]
}

fn media_words_list() -> (v: Vec<Vec<char>>)
    ensures
        v@.len() == media_words().len(),
        forall|k: int| 0 <= k < v@.len() ==> #[trigger] v@[k]@ == media_words()[k],
{
    let mut v: Vec<Vec<char>> = Vec::new();
    v.push(chars::chars_of("劇場版"));
    v.push(chars::chars_of("映画"));
    v.push(chars::chars_of("TVアニメーション"));
    v.push(chars::chars_of("TVアニメ"));
    v.push(chars::chars_of("テレビアニメーション"));
    v.push(chars::chars_of("テレビアニメ"));
    v.push(chars::chars_of("劇場アニメ"));
    v.push(chars::chars_of("アニメ"));
    v
}

/// Each word of the list from `k` on, in turn, removed from the start of the text
/// (after its leading space) when the text starts with it.
pub open spec fn media_cut(s: Seq<char>, k: nat) -> Seq<char>
    decreases media_words().len() - k,
{
    if k >= media_words().len() {
        s
    } else {
        let t = chars::trimmed_start(s);
        let p = media_words()[k as int];
        media_cut(
            if chars::has_prefix(t, p) {
                t.subrange(p.len() as int, t.len() as int)
            } else {
                s
            },
            k + 1,
        )
    }
}

/// The brackets that often hold the work title itself: they become spaces.
pub open spec fn is_title_quote(c: char) -> bool {
    c == '「' || c == '」' || c == '『' || c == '』'
}

pub open spec fn unquoted(s: Seq<char>) -> Seq<char> {
    s.map_values(|c: char| if is_title_quote(c) { ' ' } else { c })
}

/// A work title without what a search cannot use: widths, the quotes around the
/// title, notes in brackets, the kind of medium, the season at the end, and extra
/// spaces.
pub open spec fn sanitized(title: Seq<char>) -> Seq<char> {
    chars::collapsed(
        without_season_suffix(media_cut(without_notes(unquoted(half_width(title))), 0)),
    )
}

/// Remove the decoration that a search cannot use.
pub fn sanitize_title(title: &str) -> (out: String)
    ensures
        out@ == sanitized(title@),
{
    let text = chars::chars_of(title);
    let half = to_half_width(text.as_slice());

    // These brackets often hold the work title itself, so remove the brackets and
    // keep the text: 「作品D」第二期 becomes 作品D 第二期
    let mut plain: Vec<char> = Vec::new();
    let mut i: usize = 0;
    while i < half.len()
        invariant
            i <= half.len(),
            plain@ == unquoted(half@.take(i as int)),
        decreases half.len() - i,
    {
        let c = half[i];
        let d = if c == '「' || c == '」' || c == '『' || c == '』' {
            ' '
        } else {
            c
        };
        plain.push(d);
        proof {
            assert(unquoted(half@.take(i + 1)) =~= unquoted(half@.take(i as int)).push(d));
        }
        i += 1;
    }
    proof {
        assert(half@.take(half.len() as int) =~= half@);
    }

    // These hold a note, so remove the text also
    let mut s = strip_bracketed(plain.as_slice());

    // Remove a prefix for the kind of medium
    let prefixes = media_words_list();
    let mut k: usize = 0;
    while k < prefixes.len()
        invariant
            k <= prefixes@.len() == media_words().len(),
            forall|j: int|
                0 <= j < prefixes@.len() ==> #[trigger] prefixes@[j]@ == media_words()[j],
            media_cut(without_notes(plain@), 0) == media_cut(s@, k as nat),
        decreases prefixes.len() - k,
    {
        let start = chars::trim_start(s.as_slice());
        let prefix = &prefixes[k];
        if chars::starts_with(start.as_slice(), prefix.as_slice()) {
            s = chars::slice_of(start.as_slice(), prefix.len(), start.len());
        }
        k += 1;
    }

    let s = strip_season_suffix(s.as_slice());
    let words = chars::collapse_spaces(s.as_slice());
    chars::string_of(words.as_slice())
}


// ---------------------------------------------------------------------------
// Episode numbers

/// The number of a label: the first run of digits after the width is made half.
pub open spec fn label_number(label: Seq<char>) -> Option<u32> {
    let h = half_width(label);
    let rest = h.subrange(chars::non_digit_prefix_len(h) as int, h.len() as int);
    chars::decimal_u32(chars::leading_digits(rest))
}

/// The number of a label (`"第363話"` gives `Some(363)`). Not for a kanji number.
pub fn episode_number(label: &str) -> (r: Option<u32>)
    ensures
        r == label_number(label@),
{
    let text = chars::chars_of(label);
    episode_number_of(text.as_slice())
}

fn episode_number_of(label: &[char]) -> (r: Option<u32>)
    ensures
        r == label_number(label@),
{
    let h = to_half_width(label);
    let mut start: usize = 0;
    while start < h.len() && !chars::is_ascii_digit(h[start])
        invariant
            start <= h.len(),
            forall|k: int| 0 <= k < start ==> !chars::is_digit(#[trigger] h@[k]),
        decreases h.len() - start,
    {
        start += 1;
    }
    proof {
        chars::lemma_non_digit_prefix_len(h@, start as int);
    }
    let end = chars::digit_run_end(h.as_slice(), start);
    let digits = chars::slice_of(h.as_slice(), start, end);
    proof {
        let rest = h@.subrange(start as int, h.len() as int);
        assert(digits@ =~= chars::leading_digits(rest));
    }
    chars::parse_digits(digits.as_slice())
}

/// `s[start..end]` is a maximal run of decimal digits.
pub open spec fn digit_run(s: Seq<char>, start: int, end: int) -> bool {
    &&& 0 <= start < end <= s.len()
    &&& forall|k: int| start <= k < end ==> chars::is_digit(#[trigger] s[k])
    &&& start == 0 || !chars::is_digit(s[start - 1])
    &&& end == s.len() || !chars::is_digit(s[end])
}

/// The run `s[start..end]` is written as an episode number: before `話` (`第6話`,
/// `6話`), between `第` and `回` (`第6回`), or after `#`, `episode`, `ep` or `no.`
/// (`#6`, `Episode 6`, `EP6`, `No.6`). A `第` that no `話` or `回` closes is a season
/// (`第2期`), and a `回` without `第` is part of a subtitle (`3回目の夏`).
pub open spec fn episode_marked(s: Seq<char>, start: int, end: int) -> bool {
    let before = s.take(start);
    let closed_by_wa = end < s.len() && s[end] == '話';
    let closed_by_kai = end < s.len() && s[end] == '回';
    ||| closed_by_wa
    ||| (chars::has_suffix(before, "第"@) && closed_by_kai)
    ||| chars::has_suffix(before, "#"@)
    ||| chars::has_suffix(before, "episode"@)
    ||| chars::has_suffix(before, "ep"@)
    ||| chars::has_suffix(before, "no."@)
}

/// `n` is written in `s` as an episode number.
pub open spec fn numbered_as_episode(s: Seq<char>, n: u32) -> bool {
    exists|start: int, end: int|
        #![trigger digit_run(s, start, end)]
        digit_run(s, start, end) && episode_marked(s, start, end) && chars::decimal_u32(
            s.subrange(start, end),
        ) == Some(n)
}

/// The form of a title in which its episode numbers are looked for.
pub open spec fn title_key(title: Seq<char>) -> Seq<char> {
    chars::ascii_lower(normalized(title))
}

/// The numbers found so far: those of the runs that end at `upto` or before.
pub open spec fn numbered_before(s: Seq<char>, n: u32, upto: int) -> bool {
    exists|start: int, end: int|
        #![trigger digit_run(s, start, end)]
        end <= upto && digit_run(s, start, end) && episode_marked(s, start, end)
            && chars::decimal_u32(s.subrange(start, end)) == Some(n)
}

/// The numbers of the runs of digits that start at `i` or later, for `i` at the start
/// of a run or outside one, that are written as an episode number, in the order of the
/// text.
pub open spec fn marked_numbers(s: Seq<char>, i: int) -> Seq<u32>
    decreases s.len() - i,
{
    if i < 0 || i >= s.len() {
        Seq::empty()
    } else if !chars::is_digit(s[i]) {
        marked_numbers(s, i + 1)
    } else {
        let end = i + chars::digit_prefix_len(s.subrange(i, s.len() as int));
        proof {
            chars::lemma_digit_prefix_len_bound(s.subrange(i, s.len() as int));
        }
        let rest = marked_numbers(s, end);
        match chars::decimal_u32(s.subrange(i, end)) {
            Some(n) => if episode_marked(s, i, end) {
                seq![n] + rest
            } else {
                rest
            },
            None => rest,
        }
    }
}

fn marked_as_episode(s: &[char], start: usize, end: usize) -> (r: bool)
    requires
        start <= end <= s.len(),
    ensures
        r == episode_marked(s@, start as int, end as int),
{
    let before = chars::slice_of(s, 0, start);
    proof {
        assert(before@ =~= s@.take(start as int));
    }
    let b = before.as_slice();
    let closed_by_wa = end < s.len() && s[end] == '話';
    let closed_by_kai = end < s.len() && s[end] == '回';
    let opened = chars::ends_with(b, chars::chars_of("第").as_slice());
    let leads = chars::ends_with(b, chars::chars_of("#").as_slice())
        || chars::ends_with(b, chars::chars_of("episode").as_slice())
        || chars::ends_with(b, chars::chars_of("ep").as_slice())
        || chars::ends_with(b, chars::chars_of("no.").as_slice());
    closed_by_wa || (opened && closed_by_kai) || leads
}

/// Collect the numbers of a title that are written as an episode number.
///
/// Takes the 6 of `第6話`, `第6回`, `#6`, `Episode 6`, `EP6`, `No.6` and `6話`, in the
/// order of the text, but not the 4 of `シーズン4`, the 2 of `第2期` or the 3 of
/// `3回目の夏`.
fn title_episode_numbers_of(title: &[char]) -> (out: Vec<u32>)
    ensures
        out@ == marked_numbers(title_key(title@), 0),
        forall|n: u32| out@.contains(n) <==> numbered_as_episode(title_key(title@), n),
{
    let norm = normalize_for_compare(title);
    let key = chars::to_ascii_lower(norm.as_slice());
    let s = key.as_slice();
    let ghost t = s@;
    let mut numbers: Vec<u32> = Vec::new();
    let mut index: usize = 0;
    while index < s.len()
        invariant
            t == s@,
            index <= s.len(),
            index == 0 || index == s.len() || !chars::is_digit(s@[index - 1]) || !chars::is_digit(
                s@[index as int],
            ),
            forall|n: u32| numbers@.contains(n) <==> numbered_before(t, n, index as int),
            numbers@ + marked_numbers(t, index as int) == marked_numbers(t, 0),
        decreases s.len() - index,
    {
        if !chars::is_ascii_digit(s[index]) {
            proof {
                assert(marked_numbers(t, index as int) == marked_numbers(t, index + 1));
                assert forall|n: u32| numbered_before(t, n, index + 1) implies numbered_before(
                    t,
                    n,
                    index as int,
                ) by {
                    let (st, en) = choose|st: int, en: int|
                        #![trigger digit_run(t, st, en)]
                        en <= index + 1 && digit_run(t, st, en) && episode_marked(t, st, en)
                            && chars::decimal_u32(t.subrange(st, en)) == Some(n);
                    if en == index + 1 {
                        assert(chars::is_digit(t[en - 1]));
                    }
                    assert(en <= index);
                }
                assert forall|n: u32| numbered_before(t, n, index as int) implies numbered_before(
                    t,
                    n,
                    index + 1,
                ) by {
                    let (st, en) = choose|st: int, en: int|
                        #![trigger digit_run(t, st, en)]
                        en <= index && digit_run(t, st, en) && episode_marked(t, st, en)
                            && chars::decimal_u32(t.subrange(st, en)) == Some(n);
                    assert(digit_run(t, st, en));
                }
            }
            index += 1;
            continue;
        }
        let start = index;
        let end = chars::digit_run_end(s, start);
        proof {
            if start > 0 {
                assert(!chars::is_digit(t[start - 1]));
            }
            assert(digit_run(t, start as int, end as int));
        }
        index = end;
        let digits = chars::slice_of(s, start, end);
        proof {
            assert forall|k: int| 0 <= k < digits@.len() implies chars::is_digit(
                #[trigger] digits@[k],
            ) by {
                assert(digits@[k] == t[start + k]);
            }
        }
        let parsed = chars::parse_digits(digits.as_slice());
        let marked = marked_as_episode(s, start, end);
        let ghost old_numbers = numbers@;
        proof {
            assert(digits@ == t.subrange(start as int, end as int));
            assert(marked_numbers(t, start as int) == match chars::decimal_u32(
                t.subrange(start as int, end as int),
            ) {
                Some(n) => if episode_marked(t, start as int, end as int) {
                    seq![n] + marked_numbers(t, end as int)
                } else {
                    marked_numbers(t, end as int)
                },
                None => marked_numbers(t, end as int),
            });
        }
        match parsed {
            Some(number) => {
                if marked {
                    numbers.push(number);
                }
            },
            None => {},
        }
        proof {
            if parsed is Some && marked {
                assert(numbers@ + marked_numbers(t, end as int) =~= old_numbers + (seq![
                    parsed->0,
                ] + marked_numbers(t, end as int)));
            }
            // A run that ends after `start` is this run
            assert forall|st: int, en: int|
                #![trigger digit_run(t, st, en)]
                digit_run(t, st, en) && start < en <= end implies st == start && en == end by {
                if st < start {
                    assert(chars::is_digit(t[start - 1]));
                    assert(chars::is_digit(t[start as int]));
                }
                if st > start {
                    assert(chars::is_digit(t[st - 1]));
                }
                if en < end {
                    assert(chars::is_digit(t[en]));
                }
            }
            assert forall|n: u32| numbers@.contains(n) <==> numbered_before(t, n, end as int) by {
                if numbers@.contains(n) {
                    if old_numbers.contains(n) {
                        let (st, en) = choose|st: int, en: int|
                            #![trigger digit_run(t, st, en)]
                            en <= start && digit_run(t, st, en) && episode_marked(t, st, en)
                                && chars::decimal_u32(t.subrange(st, en)) == Some(n);
                        assert(digit_run(t, st, en));
                    } else {
                        assert(n == numbers@.last());
                        assert(digit_run(t, start as int, end as int));
                    }
                }
                if numbered_before(t, n, end as int) {
                    let (st, en) = choose|st: int, en: int|
                        #![trigger digit_run(t, st, en)]
                        en <= end && digit_run(t, st, en) && episode_marked(t, st, en)
                            && chars::decimal_u32(t.subrange(st, en)) == Some(n);
                    if en <= start {
                        assert(numbered_before(t, n, start as int));
                        assert(old_numbers.contains(n));
                        let i = choose|i: int| 0 <= i < old_numbers.len() && old_numbers[i] == n;
                        assert(numbers@[i] == n);
                        assert(numbers@.contains(n));
                    } else {
                        assert(st == start && en == end);
                        assert(parsed == Some(n));
                        assert(numbers@[numbers@.len() - 1] == n);
                        assert(numbers@.contains(n));
                    }
                }
            }
        }
    }
    proof {
        assert(numbers@ + marked_numbers(t, index as int) =~= numbers@);
        assert forall|n: u32| numbered_as_episode(t, n) <==> numbered_before(t, n, t.len() as int) by {
            if numbered_as_episode(t, n) {
                let (st, en) = choose|st: int, en: int|
                    #![trigger digit_run(t, st, en)]
                    digit_run(t, st, en) && episode_marked(t, st, en) && chars::decimal_u32(
                        t.subrange(st, en),
                    ) == Some(n);
                assert(digit_run(t, st, en));
            }
            if numbered_before(t, n, t.len() as int) {
                let (st, en) = choose|st: int, en: int|
                    #![trigger digit_run(t, st, en)]
                    en <= t.len() && digit_run(t, st, en) && episode_marked(t, st, en)
                        && chars::decimal_u32(t.subrange(st, en)) == Some(n);
                assert(digit_run(t, st, en));
            }
        }
    }
    numbers
}


/// The numbers of a title that are written as an episode number, in the order of the
/// text (`作品名　第7話　3年目の夏` gives `[7]`).
pub fn title_episode_numbers(title: &str) -> (out: Vec<u32>)
    ensures
        out@ == marked_numbers(title_key(title@), 0),
        forall|n: u32| out@.contains(n) <==> numbered_as_episode(title_key(title@), n),
{
    let t = chars::chars_of(title);
    title_episode_numbers_of(t.as_slice())
}

/// The candidate title `title` is the episode of `label`.
///
/// A label that is not a bare number matches as text (only this finds a kanji
/// number). Otherwise the number of the label must be one of the numbers that the
/// title writes as an episode number.
pub open spec fn matches_episode(title: Seq<char>, label: Seq<char>) -> bool {
    let l = normalized(label);
    if l.len() == 0 {
        false
    } else if !chars::all_digits(l) && chars::has_infix(normalized(title), l) {
        true
    } else {
        match label_number(label) {
            Some(n) => numbered_as_episode(title_key(title), n),
            None => false,
        }
    }
}

/// Is the candidate the same episode?
///
/// 1. A label that is written as an episode number (`第十四回`) is compared as text.
///    Only this finds a kanji number.
/// 2. If the label gives a number, compare it with the numbers of the title that are
///    written as an episode number.
///
/// A bare number is never used for a text match.
pub fn title_matches_episode(title: &str, episode_label: &str) -> (r: bool)
    ensures
        r == matches_episode(title@, episode_label@),
{
    let title_chars = chars::chars_of(title);
    let label_chars = chars::chars_of(episode_label);
    title_matches_episode_of(title_chars.as_slice(), label_chars.as_slice())
}

fn title_matches_episode_of(title: &[char], label: &[char]) -> (r: bool)
    ensures
        r == matches_episode(title@, label@),
{
    let label_n = normalize_for_compare(label);
    if label_n.len() == 0 {
        return false;
    }
    // A label of only digits (`6`) is inside 第16話, so it is not a text match
    let bare_number = chars::all_ascii_digits(label_n.as_slice());
    if !bare_number {
        let title_n = normalize_for_compare(title);
        if chars::contains(title_n.as_slice(), label_n.as_slice()) {
            return true;
        }
    }
    match episode_number_of(label) {
        None => false,
        Some(number) => {
            let numbers = title_episode_numbers_of(title);
            contains_number(&numbers, number)
        },
    }
}

fn contains_number(v: &Vec<u32>, n: u32) -> (r: bool)
    ensures
        r == v@.contains(n),
{
    let mut i: usize = 0;
    while i < v.len()
        invariant
            i <= v.len(),
            forall|k: int| 0 <= k < i ==> v@[k] != n,
        decreases v.len() - i,
    {
        if v[i] == n {
            return true;
        }
        i += 1;
    }
    false
}

// ---------------------------------------------------------------------------
// Seasons

/// The words that are followed by the number of a season, in the order of the test.
pub open spec fn season_prefixes() -> Seq<Seq<char>> {
    seq!["シーズン"@, "season"@, "Season"@]
}

/// The first word of the list from `k` on that occurs in `n`, with the digits right
/// after its first occurrence, when there are some.
pub open spec fn numbered_season(n: Seq<char>, k: nat) -> Option<Seq<char>>
    decreases season_prefixes().len() - k,
{
    if k >= season_prefixes().len() {
        None
    } else {
        let p = season_prefixes()[k as int];
        match season_number_after(n, p) {
            Some(token) => Some(token),
            None => numbered_season(n, k + 1),
        }
    }
}

/// The first season word of the list from `k` on that occurs in `n`; after the list,
/// a numbered season.
pub open spec fn season_in(n: Seq<char>, k: nat) -> Option<Seq<char>>
    decreases season_words().len() - k,
{
    if k >= season_words().len() {
        numbered_season(n, 0)
    } else if chars::has_infix(n, season_words()[k as int]) {
        Some(season_words()[k as int])
    } else {
        season_in(n, k + 1)
    }
}

/// The season word of a work title (`第二期`, `シーズン2`), or `None`.
pub open spec fn season_of(work_title: Seq<char>) -> Option<Seq<char>> {
    season_in(normalized(work_title), 0)
}

fn season_prefixes_list() -> (v: Vec<Vec<char>>)
    ensures
        v@.len() == season_prefixes().len(),
        forall|k: int| 0 <= k < v@.len() ==> #[trigger] v@[k]@ == season_prefixes()[k],
{
    let mut v: Vec<Vec<char>> = Vec::new();
    v.push(chars::chars_of("シーズン"));
    v.push(chars::chars_of("season"));
    v.push(chars::chars_of("Season"));
    v
}

/// The word for the season of a work title.
///
/// The search words have no `第2期` (with it, the official title can give zero
/// results), so candidates of another season arrive, and a `第6話` exists in every
/// season. With this word the candidates can be filtered. `None` if there is no season.
pub fn season_token(work_title: &str) -> (r: Option<String>)
    ensures
        r matches Some(t) ==> season_of(work_title@) == Some(t@),
        r is None ==> season_of(work_title@) is None,
{
    let title = chars::chars_of(work_title);
    match season_token_of(title.as_slice()) {
        Some(token) => Some(chars::string_of(token.as_slice())),
        None => None,
    }
}

/// The word `prefix` with the digits right after its first occurrence in `n`, when
/// there are some.
pub open spec fn season_number_after(n: Seq<char>, p: Seq<char>) -> Option<Seq<char>> {
    match chars::first_occurrence(n, p) {
        Some(at) => {
            let digits = chars::leading_digits(n.subrange(at + p.len(), n.len() as int));
            if digits.len() > 0 {
                Some(p + digits)
            } else {
                None
            }
        },
        None => None,
    }
}

fn season_with_number(n: &[char], prefix: &[char]) -> (r: Option<Vec<char>>)
    ensures
        r matches Some(t) ==> season_number_after(n@, prefix@) == Some(t@),
        r is None ==> season_number_after(n@, prefix@) is None,
{
    match chars::find(n, prefix) {
        Some(at) => {
            assert(chars::occurs_at(n@, prefix@, at as int));
            let plen = prefix.len();
            let nlen = n.len();
            assert(at + plen <= nlen);
            let from = at + plen;
            let end = chars::digit_run_end(n, from);
            let digits = chars::slice_of(n, from, end);
            proof {
                let rest = n@.subrange(from as int, n@.len() as int);
                assert(digits@ =~= chars::leading_digits(rest));
            }
            if end > from {
                Some(chars::concat(prefix, digits.as_slice()))
            } else {
                None
            }
        },
        None => None,
    }
}

fn season_token_of(work_title: &[char]) -> (r: Option<Vec<char>>)
    ensures
        r matches Some(t) ==> season_of(work_title@) == Some(t@),
        r is None ==> season_of(work_title@) is None,
{
    let compact = normalize_for_compare(work_title);
    let n = compact.as_slice();
    let tokens = season_words_list();
    let mut k: usize = 0;
    while k < tokens.len()
        invariant
            k <= tokens@.len() == season_words().len(),
            forall|j: int| 0 <= j < tokens@.len() ==> #[trigger] tokens@[j]@ == season_words()[j],
            n@ == normalized(work_title@),
            season_in(n@, 0) == season_in(n@, k as nat),
        decreases tokens.len() - k,
    {
        if chars::contains(n, tokens[k].as_slice()) {
            return Some(chars::slice_of(tokens[k].as_slice(), 0, tokens[k].len()));
        }
        k += 1;
    }
    // `シーズン2` and `season2` include the number
    let prefixes = season_prefixes_list();
    let mut k: usize = 0;
    while k < prefixes.len()
        invariant
            k <= prefixes@.len() == season_prefixes().len(),
            forall|j: int|
                0 <= j < prefixes@.len() ==> #[trigger] prefixes@[j]@ == season_prefixes()[j],
            n@ == normalized(work_title@),
            season_in(n@, 0) == numbered_season(n@, k as nat),
        decreases prefixes.len() - k,
    {
        match season_with_number(n, prefixes[k].as_slice()) {
            Some(token) => {
                return Some(token);
            },
            None => {},
        }
        k += 1;
    }
    None
}


// ---------------------------------------------------------------------------
// The selection

/// What the selection needs from a video of the search.
pub struct Candidate {
    pub content_id: String,
    pub title: String,
    /// `Some` for a channel, `None` for a video of a user.
    pub channel_id: Option<u64>,
    pub comment_count: u64,
    /// The length in whole seconds.
    pub length_seconds: Option<u64>,
}

/// What to search for. Given to `pick`.
pub struct Want<'a> {
    /// The work title after `sanitize_title`.
    pub work_title: &'a str,
    /// `第363話`, `第十四回`. `None` for a work without episodes (a film).
    pub episode_label: Option<&'a str>,
    /// The episode title (`partTitle`), to confirm a candidate.
    pub episode_title: Option<&'a str>,
    /// The length on dAnime, in whole seconds.
    pub duration_seconds: Option<u64>,
    /// `第二期`, `シーズン2`.
    pub season: Option<String>,
}

/// The length of a candidate is 0.7 to 1.5 times the length of the episode.
///
/// A ratio and not a difference in seconds: the official video can be some seconds
/// longer (a logo, a sponsor card), but a preview is much shorter.
pub open spec fn length_fits(length: Option<u64>, target: u64) -> bool {
    match length {
        Some(l) => 10 * l >= 7 * target && 2 * l <= 3 * target,
        None => false,
    }
}

/// The candidate can be the episode: a video of a channel, with the work title, with
/// the season if there is one, with the episode number (or, without a number, a known
/// length), and with a usable length.
pub open spec fn eligible(c: Candidate, w: Want) -> bool {
    let work = loosened(w.work_title@);
    let title = loosened(c.title@);
    &&& c.channel_id is Some
    &&& work.len() > 0
    &&& chars::has_infix(title, work)
    &&& match w.season {
        Some(season) => chars::has_infix(title, loosened(season@)),
        None => true,
    }
    &&& match w.episode_label {
        Some(label) => if chars::trimmed(label@).len() > 0 {
            matches_episode(c.title@, label@)
        } else {
            w.duration_seconds is Some
        },
        None => w.duration_seconds is Some,
    }
    &&& match w.duration_seconds {
        Some(target) => target > 0 ==> length_fits(c.length_seconds, target),
        None => true,
    }
}

/// 1 when the candidate title holds the episode title, else 0.
pub open spec fn subtitle_score(c: Candidate, w: Want) -> nat {
    match w.episode_title {
        Some(t) => if chars::has_infix(loosened(c.title@), loosened(t@)) {
            1
        } else {
            0
        },
        None => 0,
    }
}

/// The order of the candidates: the episode title first, then the comment count.
pub open spec fn ranks_above(c: Candidate, d: Candidate, w: Want) -> bool {
    ||| subtitle_score(c, w) > subtitle_score(d, w)
    ||| (subtitle_score(c, w) == subtitle_score(d, w) && c.comment_count > d.comment_count)
}

/// `i` is the selection: an eligible candidate that no eligible one ranks above, and
/// the first such one.
pub open spec fn is_pick(cs: Seq<Candidate>, w: Want, i: int) -> bool {
    &&& 0 <= i < cs.len()
    &&& eligible(cs[i], w)
    &&& forall|j: int| 0 <= j < cs.len() && eligible(cs[j], w) ==> !ranks_above(cs[j], cs[i], w)
    &&& forall|j: int| 0 <= j < i && eligible(cs[j], w) ==> ranks_above(cs[i], cs[j], w)
}

fn length_fits_exec(length: Option<u64>, target: u64) -> (r: bool)
    ensures
        r == length_fits(length, target),
{
    match length {
        Some(l) => (l as u128) * 10 >= (target as u128) * 7 && (l as u128) * 2 <= (target as u128)
            * 3,
        None => false,
    }
}

fn is_eligible(c: &Candidate, want: &Want, work: &[char]) -> (r: bool)
    requires
        work@ == loosened(want.work_title@),
    ensures
        r == eligible(*c, *want),
{
    // Only a video of a channel
    if c.channel_id.is_none() {
        return false;
    }
    let title_chars = chars::chars_of(c.title.as_str());
    let title = normalize_loose(title_chars.as_slice());
    // The work title must be in it
    if work.len() == 0 || !chars::contains(title.as_slice(), work) {
        return false;
    }
    // With a season, the candidate must have that season
    match &want.season {
        Some(season) => {
            let season_chars = chars::chars_of(season.as_str());
            let season_n = normalize_loose(season_chars.as_slice());
            if !chars::contains(title.as_slice(), season_n.as_slice()) {
                return false;
            }
        },
        None => {},
    }
    // With an episode number, the candidate must be that episode; without a number,
    // only the length can decide
    let numbered = match want.episode_label {
        Some(label) => {
            let label_chars = chars::chars_of(label);
            let trimmed = chars::trim(label_chars.as_slice());
            if trimmed.len() > 0 {
                if !title_matches_episode_of(title_chars.as_slice(), label_chars.as_slice()) {
                    return false;
                }
                true
            } else {
                false
            }
        },
        None => false,
    };
    if !numbered && want.duration_seconds.is_none() {
        return false;
    }
    // Remove what is much shorter or much longer (a preview)
    match want.duration_seconds {
        Some(target) => {
            if target > 0 && !length_fits_exec(c.length_seconds, target) {
                return false;
            }
        },
        None => {},
    }
    true
}

fn subtitle_score_of(c: &Candidate, want: &Want) -> (r: u8)
    ensures
        r as nat == subtitle_score(*c, *want),
{
    match want.episode_title {
        Some(episode_title) => {
            let title_chars = chars::chars_of(c.title.as_str());
            let title = normalize_loose(title_chars.as_slice());
            let wanted_chars = chars::chars_of(episode_title);
            let wanted = normalize_loose(wanted_chars.as_slice());
            if chars::contains(title.as_slice(), wanted.as_slice()) {
                1
            } else {
                0
            }
        },
        None => 0,
    }
}

/// The position of the selected candidate. Without certainty, `None`.
pub fn pick_index(candidates: &[Candidate], want: &Want) -> (r: Option<usize>)
    ensures
        r is None <==> forall|j: int| 0 <= j < candidates@.len() ==> !eligible(candidates@[j], *want),
        r matches Some(i) ==> is_pick(candidates@, *want, i as int),
{
    // The brackets differ, so compare without them
    let work_chars = chars::chars_of(want.work_title);
    let work = normalize_loose(work_chars.as_slice());

    let mut best: Option<usize> = None;
    let mut best_score: u8 = 0;
    let mut best_comments: u64 = 0;
    let mut i: usize = 0;
    while i < candidates.len()
        invariant
            i <= candidates@.len(),
            work@ == loosened(want.work_title@),
            best is None <==> forall|j: int| 0 <= j < i ==> !eligible(candidates@[j], *want),
            best matches Some(b) ==> {
                &&& b < i
                &&& eligible(candidates@[b as int], *want)
                &&& best_score as nat == subtitle_score(candidates@[b as int], *want)
                &&& best_comments == candidates@[b as int].comment_count
                &&& forall|j: int|
                    0 <= j < i && eligible(candidates@[j], *want) ==> !ranks_above(
                        candidates@[j],
                        candidates@[b as int],
                        *want,
                    )
                &&& forall|j: int|
                    0 <= j < b && eligible(candidates@[j], *want) ==> ranks_above(
                        candidates@[b as int],
                        candidates@[j],
                        *want,
                    )
            },
        decreases candidates.len() - i,
    {
        let candidate = &candidates[i];
        if is_eligible(candidate, want, work.as_slice()) {
            // Every candidate here is the same episode. Prefer one with the episode
            // title, then the one with more comments.
            let score = subtitle_score_of(candidate, want);
            let better = match best {
                None => true,
                Some(_) => score > best_score || (score == best_score
                    && candidate.comment_count > best_comments),
            };
            if better {
                best = Some(i);
                best_score = score;
                best_comments = candidate.comment_count;
            }
        }
        i += 1;
    }
    best
}

/// Select one candidate. Without certainty, select nothing.
///
/// The title must have the work title and the episode number in it, and the length
/// must fit. With an episode title, a candidate that also has that is preferred: one
/// episode can have two videos that differ only in the brackets. Then the one with
/// more comments wins. No comments is better than the comments of another episode.
pub fn pick<'a>(candidates: &'a [Candidate], want: &Want<'_>) -> (r: Option<&'a Candidate>)
    ensures
        r is None <==> forall|j: int| 0 <= j < candidates@.len() ==> !eligible(candidates@[j], *want),
        r matches Some(c) ==> exists|i: int| is_pick(candidates@, *want, i) && *c == candidates@[i],
{
    match pick_index(candidates, want) {
        Some(i) => Some(&candidates[i]),
        None => None,
    }
}

// ---------------------------------------------------------------------------
// Laws

/// Only the upload of a channel (the official one) is ever selected: a user video,
/// without a channel, is never picked, however many comments it has.
pub proof fn lemma_pick_is_official(cs: Seq<Candidate>, w: Want, i: int)
    requires
        is_pick(cs, w, i),
    ensures
        cs[i].channel_id is Some,
{
}

/// The brackets that can open or close a note of a title.
pub open spec fn is_note_bracket(c: char) -> bool {
    ||| c == '【' || c == '】' || c == '（' || c == '）' || c == '〈' || c == '〉'
    ||| c == '＜' || c == '＞' || c == '[' || c == ']' || c == '《' || c == '》'
}

/// A text without any of the note brackets.
pub open spec fn bracket_free(s: Seq<char>) -> bool {
    forall|i: int| 0 <= i < s.len() ==> !is_note_bracket(#[trigger] s[i])
}

proof fn lemma_note_scan_plain(s: Seq<char>)
    requires
        bracket_free(s),
    ensures
        note_scan(s) == (s, None::<char>),
    decreases s.len(),
{
    if s.len() > 0 {
        let init = s.drop_last();
        lemma_note_scan_plain(init);
        assert(!is_note_bracket(s.last()));
        assert(init.push(s.last()) =~= s);
    }
}

proof fn lemma_note_scan_inside(p: Seq<char>, m: Seq<char>, close: char, kept: Seq<char>)
    requires
        note_scan(p) == (kept, Some(close)),
        bracket_free(m),
        is_note_bracket(close),
    ensures
        note_scan(p + m) == (kept, Some(close)),
    decreases m.len(),
{
    if m.len() > 0 {
        let init = m.drop_last();
        lemma_note_scan_inside(p, init, close, kept);
        assert((p + m).drop_last() =~= p + init);
        assert((p + m).last() == m.last());
    }
}

/// A note in brackets is removed with its text: `作品名【日本語吹替版】` gives the search
/// words of `作品名`. So for `【】`, `（）`, `〈〉`, `＜＞`, `[]` and `《》`.
pub proof fn lemma_note_is_removed(t: Seq<char>, open: char, note: Seq<char>, close: char)
    requires
        bracket_free(t),
        bracket_free(note),
        (open == '【' && close == '】') || (open == '（' && close == '）') || (open == '〈' && close
            == '〉') || (open == '＜' && close == '＞') || (open == '[' && close == ']') || (open
            == '《' && close == '》'),
    ensures
        sanitized(t + seq![open] + note + seq![close]) == sanitized(t),
{
    let all = t + seq![open] + note + seq![close];
    let u = unquoted(half_width(all));
    let ut = unquoted(half_width(t));
    let un = unquoted(half_width(note));
    assert(u =~= ut + seq![open] + un + seq![close]);
    assert(bracket_free(ut)) by {
        assert forall|i: int| 0 <= i < ut.len() implies !is_note_bracket(#[trigger] ut[i]) by {
            assert(!is_note_bracket(t[i]));
        }
    }
    assert(bracket_free(un)) by {
        assert forall|i: int| 0 <= i < un.len() implies !is_note_bracket(#[trigger] un[i]) by {
            assert(!is_note_bracket(note[i]));
        }
    }
    lemma_note_scan_plain(ut);
    let p1 = ut.push(open);
    assert(p1.drop_last() =~= ut);
    assert(note_scan(p1) == (ut, Some(close)));
    lemma_note_scan_inside(p1, un, close, ut);
    let p2 = p1 + un;
    assert(u =~= p2.push(close));
    assert(u.drop_last() =~= p2);
    assert(note_scan(u) == (ut, None::<char>));
    assert(without_notes(u) == ut);
    assert(without_notes(ut) == ut);
}

/// The season words, in the order of the test.
pub open spec fn season_list() -> Seq<Seq<char>> {
    seq!["第一期"@, "第二期"@, "第三期"@, "第四期"@, "第1期"@, "第2期"@, "第3期"@, "第4期"@]
}

proof fn lemma_season_from(n: Seq<char>, k: nat, at: int)
    requires
        k <= at < 8,
        chars::has_infix(n, season_list()[at]),
        forall|j: int| k <= j < at ==> !chars::has_infix(n, #[trigger] season_list()[j]),
    ensures
        season_in(n, k) == Some(season_list()[at]),
    decreases at - k,
{
    assert(season_words() == season_list());
    if k < at {
        lemma_season_from(n, k + 1, at);
    }
}

/// The season of a title is the first season word (`第一期` … `第4期`) that its
/// normalized text holds: a title with `第2期` and no earlier word is a season 2.
pub proof fn lemma_season_is_found(work_title: Seq<char>, at: int)
    requires
        0 <= at < 8,
        chars::has_infix(normalized(work_title), season_list()[at]),
        forall|j: int|
            0 <= j < at ==> !chars::has_infix(normalized(work_title), #[trigger] season_list()[j]),
    ensures
        season_of(work_title) == Some(season_list()[at]),
{
    lemma_season_from(normalized(work_title), 0, at);
}

/// A title whose normalized text holds a season word has a season.
pub proof fn lemma_season_word_gives_season(work_title: Seq<char>, at: int)
    requires
        0 <= at < 8,
        chars::has_infix(normalized(work_title), season_list()[at]),
    ensures
        season_of(work_title) is Some,
    decreases at,
{
    let n = normalized(work_title);
    if exists|j: int| 0 <= j < at && chars::has_infix(n, #[trigger] season_list()[j]) {
        let j = choose|j: int| 0 <= j < at && chars::has_infix(n, #[trigger] season_list()[j]);
        lemma_season_word_gives_season(work_title, j);
    } else {
        lemma_season_is_found(work_title, at);
    }
}

} // verus!
