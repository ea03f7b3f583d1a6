//! The head bar of the float player: the skip button and the meta chips.
//!
//! Times are in milliseconds, as the `WS010105` reply gives them.

use vstd::prelude::*;

use crate::chars;
use crate::clock;

verus! {

/// Default for `minTimeToSkip` when the reply has no value.
pub const MIN_TIME_TO_SKIP_DEFAULT_MS: i64 = 15_000;

/// The label of the button that goes to the main story.
pub const SKIP_TO_MAIN: &'static str = "本編へスキップ ▶︎";
/// The label of the button that goes to the next episode.
pub const NEXT_EPISODE: &'static str = "次の話へ ▶︎";

/// One chapter of `chapters`.
pub struct Chapter {
    pub kind: String,
    pub start_ms: i64,
    pub end_ms: i64,
    /// Does the site show its skip UI in this chapter?
    pub show_interface: bool,
}

/// What the skip needs. Built again for each episode.
pub struct Plan {
    pub chapters: Vec<Chapter>,
    /// No button when the chapter has less time left than this.
    pub min_time_to_skip_ms: i64,
    /// Is there a next episode (`nextTitle`)?
    pub has_next: bool,
}

/// What a click does.
#[derive(PartialEq, Eq, Debug, Clone, Copy, Structural)]
pub enum Action {
    /// Go to this time, in milliseconds.
    Seek(i64),
    /// Go to the next episode (with the button of the site).
    Next,
}

/// A chapter of the opening or the ending.
pub open spec fn is_gap(c: Chapter) -> bool {
    c.kind@ == "none"@
}

/// The last chapter among the first `n` that contains `current`. Two chapters touch
/// at the same time; the later one counts.
pub open spec fn chapter_at(cs: Seq<Chapter>, current: int, n: int) -> Option<int>
    decreases n,
{
    if n <= 0 {
        None
    } else if cs[n - 1].start_ms <= current <= cs[n - 1].end_ms {
        Some(n - 1)
    } else {
        chapter_at(cs, current, n - 1)
    }
}

/// The first chapter from `k` on that is not a gap.
pub open spec fn story_from(cs: Seq<Chapter>, k: int) -> Option<int>
    decreases cs.len() - k,
{
    if k < 0 || k >= cs.len() {
        None
    } else if !is_gap(cs[k]) {
        Some(k)
    } else {
        story_from(cs, k + 1)
    }
}

/// The button at `current`: inside an opening or ending (a gap where the site shows
/// its UI) with enough time left, it seeks to the start of the next chapter that is not
/// a gap, or goes to the next episode after the last one; nowhere else. An avant is
/// part of the story and is never skipped.
pub open spec fn skip_decision(plan: Plan, current: int) -> Option<Action> {
    let cs = plan.chapters@;
    match chapter_at(cs, current, cs.len() as int) {
        None => None,
        Some(i) => if !is_gap(cs[i]) || !cs[i].show_interface {
            None
        } else if cs[i].end_ms - current < plan.min_time_to_skip_ms {
            None
        } else {
            match story_from(cs, i + 1) {
                Some(j) => Some(Action::Seek(cs[j].start_ms)),
                None => if plan.has_next {
                    Some(Action::Next)
                } else {
                    None
                },
            }
        },
    }
}

/// The label of the button of an action.
pub open spec fn label_of(action: Action) -> &'static str {
    match action {
        Action::Seek(_) => SKIP_TO_MAIN,
        Action::Next => NEXT_EPISODE,
    }
}

fn is_gap_chapter(c: &Chapter) -> (r: bool)
    ensures
        r == is_gap(*c),
{
    proof {
        reveal_strlit("none");
    }
    chars::same_chars(chars::chars_of(c.kind.as_str()).as_slice(), chars::chars_of("none").as_slice())
}

/// The button for the position `current_ms`, or `None` for no button.
///
/// The rules are those of the player of the site: a skip only inside a gap (not in an
/// avant) where the site shows its UI; the target is the start of the next chapter that
/// is not a gap, or after the last chapter the next episode when there is one; no button
/// with less than `minTimeToSkip` left. This never skips without a click.
pub fn skip_at(plan: &Plan, current_ms: i64) -> (r: Option<(&'static str, Action)>)
    ensures
        match r {
            Some((label, action)) => skip_decision(*plan, current_ms as int) == Some(action)
                && label == label_of(action),
            None => skip_decision(*plan, current_ms as int) is None,
        },
{
    let cs = &plan.chapters;
    let mut n: usize = cs.len();
    while n > 0 && !(cs[n - 1].start_ms <= current_ms && current_ms <= cs[n - 1].end_ms)
        invariant
            n <= cs@.len(),
            chapter_at(cs@, current_ms as int, cs@.len() as int) == chapter_at(
                cs@,
                current_ms as int,
                n as int,
            ),
        decreases n,
    {
        n -= 1;
    }
    if n == 0 {
        return None;
    }
    let i = n - 1;
    let chapter = &cs[i];
    if !is_gap_chapter(chapter) || !chapter.show_interface {
        return None;
    }
    if (chapter.end_ms as i128) - (current_ms as i128) < plan.min_time_to_skip_ms as i128 {
        return None;
    }
    let mut k: usize = i + 1;
    while k < cs.len() && is_gap_chapter(&cs[k])
        invariant
            i < k <= cs@.len(),
            story_from(cs@, i + 1) == story_from(cs@, k as int),
        decreases cs@.len() - k,
    {
        k += 1;
    }
    if k < cs.len() {
        Some((SKIP_TO_MAIN, Action::Seek(cs[k].start_ms)))
    } else if plan.has_next {
        Some((NEXT_EPISODE, Action::Next))
    } else {
        None
    }
}

/// One chapter as the reply gives it: a field can be absent.
pub struct RawChapter {
    pub kind: Option<String>,
    pub start_ms: Option<i64>,
    pub end_ms: Option<i64>,
    pub show_interface: Option<bool>,
}

/// The chapters that have a type, a start and an end, in their order. A chapter
/// without `showInterface` shows the UI.
pub open spec fn usable_chapters(raw: Seq<RawChapter>) -> Seq<Chapter>
    decreases raw.len(),
{
    if raw.len() == 0 {
        Seq::empty()
    } else {
        let rest = usable_chapters(raw.drop_last());
        let c = raw.last();
        if c.kind is Some && c.start_ms is Some && c.end_ms is Some {
            rest.push(
                Chapter {
                    kind: c.kind->0,
                    start_ms: c.start_ms->0,
                    end_ms: c.end_ms->0,
                    show_interface: match c.show_interface {
                        Some(b) => b,
                        None => true,
                    },
                },
            )
        } else {
            rest
        }
    }
}

/// Build the skip data from the fields of the `WS010105` reply. A negative or absent
/// `minTimeToSkip` gives 15 seconds.
pub fn plan_from(raw: Vec<RawChapter>, min_time_to_skip_ms: Option<i64>, has_next: bool) -> (plan:
    Plan)
    ensures
        plan.chapters@ == usable_chapters(raw@),
        plan.min_time_to_skip_ms == match min_time_to_skip_ms {
            Some(ms) => if ms >= 0 {
                ms
            } else {
                MIN_TIME_TO_SKIP_DEFAULT_MS
            },
            None => MIN_TIME_TO_SKIP_DEFAULT_MS,
        },
        plan.has_next == has_next,
{
    let mut chapters: Vec<Chapter> = Vec::new();
    let mut i: usize = 0;
    while i < raw.len()
        invariant
            i <= raw@.len(),
            chapters@ == usable_chapters(raw@.take(i as int)),
        decreases raw@.len() - i,
    {
        proof {
            assert(raw@.take(i + 1).drop_last() =~= raw@.take(i as int));
        }
        let c = &raw[i];
        match (&c.kind, c.start_ms, c.end_ms) {
            (Some(kind), Some(start_ms), Some(end_ms)) => {
                let show = match c.show_interface {
                    Some(b) => b,
                    None => true,
                };
                chapters.push(Chapter { kind: kind.clone(), start_ms, end_ms, show_interface: show });
            },
            _ => {},
        }
        i += 1;
    }
    proof {
        assert(raw@.take(raw@.len() as int) =~= raw@);
    }
    let min = match min_time_to_skip_ms {
        Some(ms) => if ms >= 0 {
            ms
        } else {
            MIN_TIME_TO_SKIP_DEFAULT_MS
        },
        None => MIN_TIME_TO_SKIP_DEFAULT_MS,
    };
    Plan { chapters, min_time_to_skip_ms: min, has_next }
}

/// The URL of the work page of a `partId`: a `partId` is a `workId` and three digits for
/// the episode. Another form gives no link.
pub open spec fn work_url_of(part_id: Seq<char>) -> Option<Seq<char>> {
    if part_id.len() <= 3 || !chars::all_digits(part_id) {
        None
    } else {
        Some("/animestore/ci_pc?workId="@ + part_id.subrange(0, part_id.len() - 3))
    }
}

/// The URL of the work page, from a `partId`.
pub fn work_url(part_id: &str) -> (r: Option<String>)
    ensures
        (match r {
            Some(u) => Some(u@),
            None => None,
        }) == work_url_of(part_id@),
{
    let id = chars::chars_of(part_id);
    if id.len() <= 3 {
        return None;
    }
    let mut i: usize = 0;
    while i < id.len()
        invariant
            i <= id@.len(),
            id@ == part_id@,
            id@.len() > 3,
            forall|j: int| 0 <= j < i ==> chars::is_digit(#[trigger] id@[j]),
        decreases id@.len() - i,
    {
        if !chars::is_ascii_digit(id[i]) {
            proof {
                assert(!chars::is_digit(id@[i as int]));
            }
            return None;
        }
        i += 1;
    }
    let work = chars::slice_of(id.as_slice(), 0, id.len() - 3);
    let head = chars::chars_of("/animestore/ci_pc?workId=");
    Some(chars::string_of(chars::concat(head.as_slice(), work.as_slice()).as_slice()))
}

/// The range of the main story: the first `mainStory` chapter, if it has a start and an
/// end and is not empty. A main story that covers the whole video (it starts in the first
/// second and ends in the last one) has no opening and no ending, so it gives nothing.
pub open spec fn main_story_of(raw: Seq<RawChapter>, duration_ms: Option<i64>, k: int) -> Option<
    (i64, i64),
>
    decreases raw.len() - k,
{
    if k < 0 || k >= raw.len() {
        None
    } else if !(raw[k].kind matches Some(t) && t@ == "mainStory"@) {
        main_story_of(raw, duration_ms, k + 1)
    } else {
        match (raw[k].start_ms, raw[k].end_ms) {
            (Some(start), Some(end)) => if end <= start {
                None
            } else if start < 1000 && (duration_ms matches Some(total) && end >= total - 1000) {
                None
            } else {
                Some((start, end))
            },
            _ => None,
        }
    }
}

/// The range of the main story (`mainStory` of `chapters`), in milliseconds.
pub fn main_story_range(raw: &Vec<RawChapter>, duration_ms: Option<i64>) -> (r: Option<(i64, i64)>)
    ensures
        r == main_story_of(raw@, duration_ms, 0),
{
    proof {
        reveal_strlit("mainStory");
    }
    let wanted = chars::chars_of("mainStory");
    let mut k: usize = 0;
    while k < raw.len()
        invariant
            k <= raw@.len(),
            wanted@ == "mainStory"@,
            main_story_of(raw@, duration_ms, 0) == main_story_of(raw@, duration_ms, k as int),
        decreases raw@.len() - k,
    {
        let is_main = match &raw[k].kind {
            Some(t) => chars::same_chars(chars::chars_of(t.as_str()).as_slice(), wanted.as_slice()),
            None => false,
        };
        if is_main {
            return match (raw[k].start_ms, raw[k].end_ms) {
                (Some(start), Some(end)) => {
                    if end <= start {
                        None
                    } else {
                        let covers_all = start < 1000 && match duration_ms {
                            Some(total) => end as i128 >= total as i128 - 1000,
                            None => false,
                        };
                        if covers_all {
                            None
                        } else {
                            Some((start, end))
                        }
                    }
                },
                _ => None,
            };
        }
        k += 1;
    }
    None
}

/// One chip of the meta line. `label` is the small text on the left.
pub struct MetaItem {
    pub label: Option<&'static str>,
    pub value: String,
    /// A class such as `is-latest`.
    pub modifier: Option<&'static str>,
}

/// A chip as plain values.
pub open spec fn chip(label: Option<Seq<char>>, value: Seq<char>, modifier: Option<Seq<char>>) -> (
    Option<Seq<char>>,
    Seq<char>,
    Option<Seq<char>>,
) {
    (label, value, modifier)
}

/// A chip as plain values.
pub open spec fn item_view(item: MetaItem) -> (Option<Seq<char>>, Seq<char>, Option<Seq<char>>) {
    (
        match item.label {
            Some(l) => Some(l@),
            None => None,
        },
        item.value@,
        match item.modifier {
            Some(m) => Some(m@),
            None => None,
        },
    )
}

/// The time of a chip.
pub open spec fn time_text(ms: int) -> Seq<char> {
    clock::clock_text(clock::whole_seconds(ms))
}

/// The chips: the length of a known, positive duration; the range of the main story; the
/// position of the last stop when it is at least five seconds in and not in the last
/// five seconds; and "latest episode" when there is no next one.
pub open spec fn meta_chips(
    duration_ms: Option<i64>,
    main_story: Option<(i64, i64)>,
    resume_ms: Option<i64>,
    has_next: bool,
) -> Seq<(Option<Seq<char>>, Seq<char>, Option<Seq<char>>)> {
    let a = match duration_ms {
        Some(d) => seq![chip(None, time_text(d as int), None)],
        None => Seq::empty(),
    };
    let b = match main_story {
        Some((start, end)) => seq![
            chip(Some("本編"@), time_text(start as int) + seq!['〜'] + time_text(end as int), None),
        ],
        None => Seq::empty(),
    };
    let c = match resume_ms {
        Some(r) => if r >= 5000 && !(duration_ms matches Some(total) && r >= total - 5000) {
            seq![chip(Some("前回"@), time_text(r as int), Some("is-resume"@))]
        } else {
            Seq::empty()
        },
        None => Seq::empty(),
    };
    let d = if has_next {
        Seq::empty()
    } else {
        seq![chip(None, "最新話"@, Some("is-latest"@))]
    };
    a + b + c + d
}

/// The chips of the meta line. `duration_ms` is the length of the episode where the
/// reply gives a positive one; an absent field gives no chip.
pub fn meta_items(
    duration_ms: Option<i64>,
    main_story: Option<(i64, i64)>,
    resume_ms: Option<i64>,
    has_next: bool,
) -> (items: Vec<MetaItem>)
    ensures
        items@.map_values(|i: MetaItem| item_view(i)) == meta_chips(
            duration_ms,
            main_story,
            resume_ms,
            has_next,
        ),
{
    let mut items: Vec<MetaItem> = Vec::new();
    match duration_ms {
        Some(d) => {
            items.push(MetaItem { label: None, value: clock::timestamp(d), modifier: None });
        },
        None => {},
    }
    match main_story {
        Some((start, end)) => {
            let mut sep: Vec<char> = Vec::new();
            sep.push('〜');
            let front = chars::concat(
                chars::chars_of(clock::timestamp(start).as_str()).as_slice(),
                sep.as_slice(),
            );
            let whole = chars::concat(
                front.as_slice(),
                chars::chars_of(clock::timestamp(end).as_str()).as_slice(),
            );
            proof {
                assert(sep@ =~= seq!['〜']);
            }
            items.push(
                MetaItem {
                    label: Some("本編"),
                    value: chars::string_of(whole.as_slice()),
                    modifier: None,
                },
            );
        },
        None => {},
    }
    match resume_ms {
        Some(r) => {
            let near_end = match duration_ms {
                Some(total) => r as i128 >= total as i128 - 5000,
                None => false,
            };
            if r >= 5000 && !near_end {
                items.push(
                    MetaItem {
                        label: Some("前回"),
                        value: clock::timestamp(r),
                        modifier: Some("is-resume"),
                    },
                );
            }
        },
        None => {},
    }
    if !has_next {
        items.push(
            MetaItem {
                label: None,
                value: chars::string_of(chars::chars_of("最新話").as_slice()),
                modifier: Some("is-latest"),
            },
        );
    }
    proof {
        assert(items@.map_values(|i: MetaItem| item_view(i)) =~= meta_chips(
            duration_ms,
            main_story,
            resume_ms,
            has_next,
        ));
    }
    items
}

} // verus!
