//! The sections of the top page.

use vstd::prelude::*;

use crate::chars;

verus! {

/// Cards that a section may have beyond its limit and still show them all: hiding one
/// or two behind a button is worse than showing them.
pub const SHOW_ALL_SLACK: usize = 3;

/// What a section is for. This decides the place, not the order of the site.
#[derive(PartialEq, Eq, Clone, Copy, Debug, Structural)]
pub enum Role {
    /// On air now, with an update time.
    OnAir,
    Ranking,
    /// Everything else. Reached with a chip.
    Browse,
}

/// The role of a section with this title: on air (`放送中`) first, then the ranking
/// (`ランキング`).
pub open spec fn role_for(title: Seq<char>) -> Role {
    if chars::has_infix(title, "放送中"@) {
        Role::OnAir
    } else if chars::has_infix(title, "ランキング"@) {
        Role::Ranking
    } else {
        Role::Browse
    }
}

/// The role, from the title.
pub fn role_of(title: &str) -> (r: Role)
    ensures
        r == role_for(title@),
{
    let t = chars::chars_of(title);
    if chars::contains(t.as_slice(), chars::chars_of("放送中").as_slice()) {
        Role::OnAir
    } else if chars::contains(t.as_slice(), chars::chars_of("ランキング").as_slice()) {
        Role::Ranking
    } else {
        Role::Browse
    }
}

/// Cards to show at the start: all of them when only a few would be left.
pub fn shown_count(total: usize, limit: usize) -> (r: usize)
    ensures
        r == if total <= limit + SHOW_ALL_SLACK {
            total
        } else {
            limit
        },
{
    if total as u128 <= limit as u128 + SHOW_ALL_SLACK as u128 {
        total
    } else {
        limit
    }
}

/// `第N話` around a text.
pub open spec fn numbered(n: Seq<char>) -> Seq<char> {
    seq!['第'] + n + seq!['話']
}

/// The episode label of a card of the top page.
///
/// The site gives `第6話` (kept), a bare number (given the same form), or a broken
/// text such as `...sode 12`. Anything else is discarded, and the number comes from
/// the `partId`, which is the `workId` and three digits: without its leading zeros it
/// must be a nonempty run of digits.
pub open spec fn top_label(text: Option<Seq<char>>, work_id: Option<Seq<char>>, part_id: Option<
    Seq<char>,
>) -> Option<Seq<char>> {
    if text matches Some(t) && chars::all_digits(t) {
        Some(numbered(text->0))
    } else if text matches Some(t) && t.len() > 0 && t[0] == '第' && t.last() == '話' {
        text
    } else {
        match (work_id, part_id) {
            (Some(w), Some(p)) => if chars::has_prefix(p, w) {
                let rest = p.subrange(w.len() as int, p.len() as int);
                let number = rest.subrange(
                    chars::lead_len(rest, |c: char| c == '0') as int,
                    rest.len() as int,
                );
                if number.len() > 0 && chars::all_digits(number) {
                    Some(numbered(number))
                } else {
                    None
                }
            } else {
                None
            },
            _ => None,
        }
    }
}

fn numbered_text(n: &[char]) -> (r: String)
    ensures
        r@ == numbered(n@),
{
    let mut head: Vec<char> = Vec::new();
    head.push('第');
    let mut tail: Vec<char> = Vec::new();
    tail.push('話');
    let front = chars::concat(head.as_slice(), n);
    let whole = chars::concat(front.as_slice(), tail.as_slice());
    proof {
        assert(whole@ =~= numbered(n@));
    }
    chars::string_of(whole.as_slice())
}

/// The episode number of a card, as `第6話`.
pub fn episode_label(text: Option<String>, work_id: Option<&str>, part_id: Option<&str>) -> (r:
    Option<String>)
    ensures
        (match r {
            Some(s) => Some(s@),
            None => None,
        }) == top_label(
            match text {
                Some(t) => Some(t@),
                None => None,
            },
            match work_id {
                Some(w) => Some(w@),
                None => None,
            },
            match part_id {
                Some(p) => Some(p@),
                None => None,
            },
        ),
{
    match &text {
        Some(t) => {
            let s = chars::chars_of(t.as_str());
            if chars::all_ascii_digits(s.as_slice()) {
                return Some(numbered_text(s.as_slice()));
            }
            if s.len() > 0 && s[0] == '第' && s[s.len() - 1] == '話' {
                return Some(chars::string_of(s.as_slice()));
            }
        },
        None => {},
    }
    let (w, p) = match (work_id, part_id) {
        (Some(w), Some(p)) => (chars::chars_of(w), chars::chars_of(p)),
        _ => {
            return None;
        },
    };
    if !chars::starts_with(p.as_slice(), w.as_slice()) {
        return None;
    }
    let rest = chars::slice_of(p.as_slice(), w.len(), p.len());
    let mut zeros: usize = 0;
    while zeros < rest.len() && rest[zeros] == '0'
        invariant
            zeros <= rest@.len(),
            forall|k: int| 0 <= k < zeros ==> #[trigger] rest@[k] == '0',
        decreases rest@.len() - zeros,
    {
        zeros += 1;
    }
    proof {
        chars::lemma_lead_len(rest@, |c: char| c == '0', zeros as int);
    }
    let number = chars::slice_of(rest.as_slice(), zeros, rest.len());
    if number.len() == 0 || !chars::all_ascii_digits(number.as_slice()) {
        return None;
    }
    Some(numbered_text(number.as_slice()))
}

/// The rental list is read again after a day: a work becomes a rental or stops being one
/// on the day of a release, not on the hour.
pub const RENTAL_TTL_MS: i64 = 86_400_000;

/// Are the kept rental ids of this age (milliseconds since the write; `None` without a
/// time) still to be used?
pub fn rental_fresh(age_ms: Option<i64>) -> (r: bool)
    ensures
        r == (age_ms matches Some(age) && age < RENTAL_TTL_MS),
{
    match age_ms {
        Some(age) => age < RENTAL_TTL_MS,
        None => false,
    }
}

/// Is the work a rental? Without the list (the setting is off, or no answer came)
/// nothing is: a page with rentals is better than a page that waits.
pub fn is_rental(ids: Option<&Vec<String>>, work_id: &str) -> (r: bool)
    ensures
        r == (ids is Some && exists|i: int|
            0 <= i < ids->0@.len() && (#[trigger] ids->0@[i])@ == work_id@),
{
    let list = match ids {
        Some(l) => l,
        None => {
            return false;
        },
    };
    let wanted = chars::chars_of(work_id);
    let mut i: usize = 0;
    while i < list.len()
        invariant
            i <= list@.len(),
            wanted@ == work_id@,
            ids == Some(list),
            forall|j: int| 0 <= j < i ==> #[trigger] list@[j]@ != work_id@,
        decreases list@.len() - i,
    {
        if chars::same_chars(chars::chars_of(list[i].as_str()).as_slice(), wanted.as_slice()) {
            proof {
                assert(list@[i as int]@ == work_id@);
                assert(ids->0@[i as int]@ == work_id@);

            }
            return true;
        }
        i += 1;
    }
    false
}

/// Does a section hold the rentals? Its id is `rental`, or, in case that id changes,
/// its title has `レンタル` in it.
pub fn is_rental_section(section_id: Option<&str>, title: Option<&str>) -> (r: bool)
    ensures
        r == ((section_id matches Some(id) && id@ == "rental"@) || (title matches Some(t)
            && chars::has_infix(t@, "レンタル"@))),
{
    let by_id = match section_id {
        Some(id) => chars::same_chars(chars::chars_of(id).as_slice(), chars::chars_of("rental").as_slice()),
        None => false,
    };
    let by_title = match title {
        Some(t) => chars::contains(chars::chars_of(t).as_slice(), chars::chars_of("レンタル").as_slice()),
        None => false,
    };
    by_id || by_title
}

/// An attribute or a text that holds more than spaces.
pub open spec fn filled(v: Option<Seq<char>>) -> Option<Seq<char>> {
    match v {
        Some(t) => if chars::trimmed(t).len() > 0 {
            Some(t)
        } else {
            None
        },
        None => None,
    }
}

/// The destination of an item: its `data-link`, else the item as a link, else a link
/// inside it that is not `void(0)`.
pub open spec fn item_href_of(data_link: Option<Seq<char>>, own: Option<Seq<char>>, inner: Option<
    Seq<char>,
>) -> Option<Seq<char>> {
    if filled(data_link) is Some {
        data_link
    } else if own matches Some(h) && h.len() > 0 {
        own
    } else if inner matches Some(h) && h.len() > 0 && !chars::has_infix(h, "void(0)"@) {
        inner
    } else {
        None
    }
}

/// The views of an optional text.
pub open spec fn opt_view(t: Option<String>) -> Option<Seq<char>> {
    match t {
        Some(v) => Some(v@),
        None => None,
    }
}

/// The destination of an item of a slider.
pub fn item_href(data_link: Option<String>, own: Option<String>, inner: Option<String>) -> (r:
    Option<String>)
    ensures
        opt_view(r) == item_href_of(opt_view(data_link), opt_view(own), opt_view(inner)),
{
    match data_link {
        Some(d) => {
            if chars::trim(chars::chars_of(d.as_str()).as_slice()).len() > 0 {
                return Some(d);
            }
        },
        None => {},
    }
    match own {
        Some(h) => {
            if chars::chars_of(h.as_str()).len() > 0 {
                return Some(h);
            }
        },
        None => {},
    }
    match inner {
        Some(h) => {
            let c = chars::chars_of(h.as_str());
            if c.len() > 0 && !chars::contains(c.as_slice(), chars::chars_of("void(0)").as_slice()) {
                return Some(h);
            }
        },
        None => {},
    }
    None
}

/// A thumbnail that is not the placeholder of the lazy load.
pub fn usable_thumb(src: Option<String>) -> (r: Option<String>)
    ensures
        opt_view(r) == (match opt_view(src) {
            Some(s) => if chars::has_infix(s, "lazySpace"@) {
                None
            } else {
                Some(s)
            },
            None => None,
        }),
{
    match src {
        Some(s) => {
            if chars::contains(chars::chars_of(s.as_str()).as_slice(), chars::chars_of("lazySpace").as_slice()) {
                None
            } else {
                Some(s)
            }
        },
        None => None,
    }
}

/// Seconds that a slide of the showcase stays while the page is looked at.
pub const SLIDE_INTERVAL_SECONDS: u32 = 8;

/// The slide after `current`, back to the first after the last.
pub open spec fn next_slide(current: int, count: int) -> int {
    (current + 1) % if count > 1 {
        count
    } else {
        1
    }
}

/// One second of the showcase: held (the pointer is on it) or off screen, nothing moves;
/// else a second more is counted, and after the interval the next slide shows and the
/// count starts again. Gives the new count and the slide to show, if any.
pub fn slide_tick(elapsed: u32, paused: bool, current: usize, count: usize) -> (r: (u32, Option<usize>))
    requires
        current < usize::MAX,
    ensures
        paused ==> r == (elapsed, None::<usize>),
        !paused && elapsed + 1 < SLIDE_INTERVAL_SECONDS ==> r == ((elapsed + 1) as u32, None::<usize>),
        !paused && elapsed + 1 >= SLIDE_INTERVAL_SECONDS ==> r.0 == 0 && r.1 == Some(
            next_slide(current as int, count as int) as usize,
        ),
{
    if paused {
        return (elapsed, None);
    }
    if elapsed < SLIDE_INTERVAL_SECONDS - 1 {
        return (elapsed + 1, None);
    }
    let modulus = if count > 1 {
        count
    } else {
        1
    };
    (0, Some((current + 1) % modulus))
}

/// Leading zeros add nothing to the value of a number.
proof fn lemma_leading_zeros_value(d: Seq<char>, z: int)
    requires
        0 <= z <= d.len(),
        forall|i: int| 0 <= i < z ==> #[trigger] d[i] == '0',
    ensures
        chars::digits_value(d) == chars::digits_value(d.subrange(z, d.len() as int)),
    decreases d.len(),
{
    if d.len() > z {
        let init = d.drop_last();
        lemma_leading_zeros_value(init, z);
        assert(d.subrange(z, d.len() as int).drop_last() =~= init.subrange(z, init.len() as int));
        assert(d.subrange(z, d.len() as int).last() == d.last());
    } else {
        assert(d.subrange(z, d.len() as int) =~= Seq::<char>::empty());
        lemma_all_zero_value(d);
    }
}

proof fn lemma_all_zero_value(d: Seq<char>)
    requires
        forall|i: int| 0 <= i < d.len() ==> #[trigger] d[i] == '0',
    ensures
        chars::digits_value(d) == 0,
    decreases d.len(),
{
    if d.len() > 0 {
        lemma_all_zero_value(d.drop_last());
    }
}

/// Without a label of the site, the episode number comes from the `partId`: the `workId`
/// and digits `d`, not all zero. The label is `第` + a number + `話`, where the number is
/// written without leading zeros and has the value of `d` (`28641` and `28641010` give
/// `第10話`).
pub proof fn lemma_label_from_part_id(w: Seq<char>, d: Seq<char>)
    requires
        d.len() > 0,
        forall|i: int| 0 <= i < d.len() ==> '0' <= #[trigger] d[i] <= '9',
        exists|i: int| 0 <= i < d.len() && #[trigger] d[i] != '0',
    ensures
        top_label(None, Some(w), Some(w + d)) matches Some(l) && l.len() >= 3 && l[0] == '第'
            && l.last() == '話' && ({
            let n = l.subrange(1, l.len() - 1);
            &&& n.len() > 0
            &&& n[0] != '0'
            &&& forall|i: int| 0 <= i < n.len() ==> '0' <= #[trigger] n[i] <= '9'
            &&& chars::digits_value(n) == chars::digits_value(d)
        }),
{
    let p = w + d;
    assert(p.subrange(0, w.len() as int) =~= w);
    assert(chars::has_prefix(p, w));
    assert(p.subrange(w.len() as int, p.len() as int) =~= d);
    let z = chars::lead_len(d, |c: char| c == '0');
    chars::lemma_lead_len_facts(d, |c: char| c == '0');
    let i0 = choose|i: int| 0 <= i < d.len() && #[trigger] d[i] != '0';
    assert(z <= i0) by {
        if z > i0 {
            assert(d[i0] == '0');
        }
    }
    assert(z < d.len());
    lemma_lead_len_stops(d, z as int);
    let n = d.subrange(z as int, d.len() as int);
    assert(chars::all_digits(n)) by {
        assert forall|i: int| 0 <= i < n.len() implies chars::is_digit(#[trigger] n[i]) by {
            assert(n[i] == d[z + i]);
        }
    }
    lemma_leading_zeros_value(d, z as int);
    let l = numbered(n);
    assert(top_label(None, Some(w), Some(p)) == Some(l));
    assert(l.subrange(1, l.len() - 1) =~= n);
    assert forall|i: int| 0 <= i < n.len() implies '0' <= #[trigger] n[i] <= '9' by {
        assert(n[i] == d[z + i]);
    }
}

/// The character just after the leading zeros, where there is one, is not a zero.
proof fn lemma_lead_len_stops(d: Seq<char>, z: int)
    requires
        z == chars::lead_len(d, |c: char| c == '0'),
        z < d.len(),
    ensures
        d[z] != '0',
    decreases d.len(),
{
    if d.len() > 0 && d[0] == '0' {
        let t = d.drop_first();
        assert(chars::lead_len(d, |c: char| c == '0') == 1 + chars::lead_len(t, |c: char| c == '0'));
        lemma_lead_len_stops(t, z - 1);
        assert(t[z - 1] == d[z]);
    }
}

} // verus!
