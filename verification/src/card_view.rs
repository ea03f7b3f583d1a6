//! The data of the own cards: where a card goes, its thumbnail and its progress.

use vstd::prelude::*;

use crate::chars;

verus! {

/// Where a card goes on a click. One of three, so no code can read one target and
/// ignore another.
#[allow(inconsistent_fields)]
#[derive(Clone)]
pub enum Link {
    /// Play the episode (`sc_d_pc?partId=`). With a `work_id`, the work title also
    /// links to the work page.
    Play { part_id: String, work_id: Option<String> },
    /// The work page (`ci_pc?workId=`).
    Work { work_id: String },
    /// Anything else (a feature, a series, a book).
    External(String),
}

/// A destination from `work_id` and `part_id`: an episode plays where there is one;
/// nothing where both are absent.
pub fn link_of(work_id: Option<String>, part_id: Option<String>) -> (r: Option<Link>)
    ensures
        match part_id {
            Some(p) => r == Some(Link::Play { part_id: p, work_id }),
            None => match work_id {
                Some(w) => r == Some(Link::Work { work_id: w }),
                None => r is None,
            },
        },
{
    match (work_id, part_id) {
        (work_id, Some(part_id)) => Some(Link::Play { part_id, work_id }),
        (Some(work_id), None) => Some(Link::Work { work_id }),
        (None, None) => None,
    }
}

/// `/animestore/<path>?key=value&…`.
pub open spec fn url_of(path: Seq<char>, query: Seq<(Seq<char>, Seq<char>)>) -> Seq<char>
    decreases query.len(),
{
    if query.len() == 0 {
        "/animestore/"@ + path
    } else {
        let last = query.last();
        url_of(path, query.drop_last()) + seq![if query.len() == 1 { '?' } else { '&' }] + last.0
            + seq!['='] + last.1
    }
}

/// The URL of a page of the site with its query.
pub fn url_for(path: &str, query: &[(&str, &str)]) -> (r: String)
    ensures
        r@ == url_of(path@, query@.map_values(|p: (&str, &str)| (p.0@, p.1@))),
{
    let ghost views = query@.map_values(|p: (&str, &str)| (p.0@, p.1@));
    let mut url = chars::concat(
        chars::chars_of("/animestore/").as_slice(),
        chars::chars_of(path).as_slice(),
    );
    let mut i: usize = 0;
    while i < query.len()
        invariant
            i <= query@.len(),
            views == query@.map_values(|p: (&str, &str)| (p.0@, p.1@)),
            url@ == url_of(path@, views.take(i as int)),
        decreases query@.len() - i,
    {
        let (key, value) = query[i];
        let mut mark: Vec<char> = Vec::new();
        mark.push(if i == 0 { '?' } else { '&' });
        let mut eq: Vec<char> = Vec::new();
        eq.push('=');
        url = chars::concat(url.as_slice(), mark.as_slice());
        url = chars::concat(url.as_slice(), chars::chars_of(key).as_slice());
        url = chars::concat(url.as_slice(), eq.as_slice());
        url = chars::concat(url.as_slice(), chars::chars_of(value).as_slice());
        proof {
            assert(views.take(i + 1).drop_last() =~= views.take(i as int));
            assert(views.take(i + 1).last() == (key@, value@));
            assert(mark@ =~= seq![if i == 0 { '?' } else { '&' }]);
            assert(eq@ =~= seq!['=']);
        }
        i += 1;
    }
    proof {
        assert(views.take(query@.len() as int) =~= views);
    }
    chars::string_of(url.as_slice())
}

/// The destination of the main click area (the thumbnail).
pub open spec fn href_of(link: Link) -> Seq<char> {
    match link {
        Link::Play { part_id, .. } => url_of("sc_d_pc"@, seq![("partId"@, part_id@)]),
        Link::Work { work_id } => url_of("ci_pc"@, seq![("workId"@, work_id@)]),
        Link::External(href) => href@,
    }
}

impl Link {
    /// The `partId`, if the card can play an episode.
    pub fn part_id(&self) -> (r: Option<&str>)
        ensures
            match *self {
                Link::Play { part_id, .. } => r matches Some(p) && p@ == part_id@,
                _ => r is None,
            },
    {
        match self {
            Link::Play { part_id, .. } => Some(part_id.as_str()),
            _ => None,
        }
    }

    /// The `workId`, if the card has a work page.
    pub fn work_id(&self) -> (r: Option<&str>)
        ensures
            match *self {
                Link::Play { work_id, .. } => match work_id {
                    Some(w) => r matches Some(x) && x@ == w@,
                    None => r is None,
                },
                Link::Work { work_id } => r matches Some(x) && x@ == work_id@,
                Link::External(_) => r is None,
            },
    {
        match self {
            Link::Play { work_id, .. } => match work_id {
                Some(w) => Some(w.as_str()),
                None => None,
            },
            Link::Work { work_id } => Some(work_id.as_str()),
            Link::External(_) => None,
        }
    }

    /// The destination of the main click area (the thumbnail).
    pub fn main_href(&self) -> (r: String)
        ensures
            r@ == href_of(*self),
    {
        match self {
            Link::Play { part_id, .. } => {
                let q = [("partId", part_id.as_str())];
                let r = url_for("sc_d_pc", &q);
                proof {
                    assert(q@.map_values(|p: (&str, &str)| (p.0@, p.1@)) =~= seq![
                        ("partId"@, part_id@),
                    ]);
                }
                r
            },
            Link::Work { work_id } => {
                let q = [("workId", work_id.as_str())];
                let r = url_for("ci_pc", &q);
                proof {
                    assert(q@.map_values(|p: (&str, &str)| (p.0@, p.1@)) =~= seq![
                        ("workId"@, work_id@),
                    ]);
                }
                r
            },
            Link::External(href) => href.clone(),
        }
    }
}

/// The size of the thumbnails that the setting asks for: a number, or no change at all
/// (`off`, or anything that is not a number).
pub open spec fn thumb_setting_of(size: Seq<char>) -> Option<Seq<char>> {
    if size.len() > 0 && chars::all_digits(size) {
        Some(size)
    } else {
        None
    }
}

/// The size of the thumbnails from the setting.
pub fn thumb_setting(size: &str) -> (r: Option<String>)
    ensures
        (match r {
            Some(s) => Some(s@),
            None => None,
        }) == thumb_setting_of(size@),
{
    let s = chars::chars_of(size);
    if s.len() > 0 && chars::all_ascii_digits(s.as_slice()) {
        Some(chars::string_of(s.as_slice()))
    } else {
        None
    }
}

/// The path of a URL: what comes before the first `?`.
pub open spec fn path_part(url: Seq<char>) -> Seq<char> {
    match chars::index_from(url, '?', 0) {
        Some(q) => url.subrange(0, q),
        None => url,
    }
}

/// The query of a URL, with its `?`, or nothing.
pub open spec fn query_part(url: Seq<char>) -> Seq<char> {
    match chars::index_from(url, '?', 0) {
        Some(q) => url.subrange(q, url.len() as int),
        None => Seq::empty(),
    }
}

/// A thumbnail URL with the size at the end of the file name changed to the target:
/// the size of the card, else the one of the setting; no change where the setting says
/// so, the URL has no numeric size, or the size is already the target.
pub open spec fn resized(url: Seq<char>, size: Option<Seq<char>>, setting: Option<Seq<char>>) -> Option<
    Seq<char>,
> {
    let path = path_part(url);
    match chars::last_index(path, '.') {
        None => None,
        Some(dot) => {
            let stem = path.subrange(0, dot);
            let extension = path.subrange(dot + 1, path.len() as int);
            match chars::last_index(stem, '_') {
                None => None,
                Some(u) => {
                    let head = stem.subrange(0, u);
                    let segment = stem.subrange(u + 1, stem.len() as int);
                    if segment.len() == 0 || !chars::all_digits(segment) || setting is None {
                        None
                    } else {
                        let target = match size {
                            Some(s) => s,
                            None => setting->0,
                        };
                        if segment == target {
                            None
                        } else {
                            Some(head + seq!['_'] + target + seq!['.'] + extension + query_part(url))
                        }
                    }
                },
            }
        },
    }
}

/// Change a thumbnail URL to another size. `None` if no change is possible.
///
/// The same image is there in several sizes; the number at the end of the file name
/// says which (`_2` is 288x162, `_6` 208x117, `_1` 640x360, `_10` 1920x1080). A full
/// width grid makes the small ones blurred. `setting` is the size of the settings
/// (`None`: no change); a card can ask for its own size.
pub fn resize_thumb(url: &str, size: Option<&str>, setting: Option<&str>) -> (r: Option<String>)
    ensures
        (match r {
            Some(s) => Some(s@),
            None => None,
        }) == resized(
            url@,
            match size {
                Some(s) => Some(s@),
                None => None,
            },
            match setting {
                Some(s) => Some(s@),
                None => None,
            },
        ),
{
    let u = chars::chars_of(url);
    let (path, query) = match chars::find_char_from(u.as_slice(), '?', 0) {
        Some(q) => (chars::slice_of(u.as_slice(), 0, q), chars::slice_of(u.as_slice(), q, u.len())),
        None => (chars::slice_of(u.as_slice(), 0, u.len()), Vec::new()),
    };
    proof {
        assert(u@.subrange(0, u@.len() as int) =~= u@);
        assert(path@ == path_part(url@));
        assert(query@ == query_part(url@));
    }
    let dot = match chars::rfind_char(path.as_slice(), '.') {
        Some(d) => d,
        None => {
            return None;
        },
    };
    let stem = chars::slice_of(path.as_slice(), 0, dot);
    let extension = chars::slice_of(path.as_slice(), dot + 1, path.len());
    let under = match chars::rfind_char(stem.as_slice(), '_') {
        Some(x) => x,
        None => {
            return None;
        },
    };
    let head = chars::slice_of(stem.as_slice(), 0, under);
    let segment = chars::slice_of(stem.as_slice(), under + 1, stem.len());
    if segment.len() == 0 || !chars::all_ascii_digits(segment.as_slice()) {
        return None;
    }
    let target = match setting {
        None => {
            return None;
        },
        Some(s) => match size {
            Some(own) => chars::chars_of(own),
            None => chars::chars_of(s),
        },
    };
    if chars::same_chars(segment.as_slice(), target.as_slice()) {
        return None;
    }
    let mut under_mark: Vec<char> = Vec::new();
    under_mark.push('_');
    let mut dot_mark: Vec<char> = Vec::new();
    dot_mark.push('.');
    let a = chars::concat(head.as_slice(), under_mark.as_slice());
    let b = chars::concat(a.as_slice(), target.as_slice());
    let c = chars::concat(b.as_slice(), dot_mark.as_slice());
    let d = chars::concat(c.as_slice(), extension.as_slice());
    let e = chars::concat(d.as_slice(), query.as_slice());
    proof {
        assert(under_mark@ =~= seq!['_']);
        assert(dot_mark@ =~= seq!['.']);
    }
    Some(chars::string_of(e.as_slice()))
}

/// A character of a number: a digit or a point.
pub open spec fn is_number_char(c: char) -> bool {
    chars::is_digit(c) || c == '.'
}

/// The text without the trailing characters that are not part of a number (`94%`
/// gives `94`).
pub open spec fn numeric_part(value: Seq<char>) -> Seq<char> {
    value.take(value.len() - chars::tail_len(value, |c: char| !is_number_char(c)))
}

fn numeric_of(value: &[char]) -> (r: Vec<char>)
    ensures
        r@ == numeric_part(value@),
{
    let mut stop: usize = value.len();
    while stop > 0 && !(chars::is_ascii_digit(value[stop - 1]) || value[stop - 1] == '.')
        invariant
            stop <= value@.len(),
            forall|k: int| stop <= k < value@.len() ==> !is_number_char(#[trigger] value@[k]),
        decreases stop,
    {
        stop -= 1;
    }
    proof {
        chars::lemma_tail_len(value@, |c: char| !is_number_char(c), stop as int);
    }
    chars::slice_of(value, 0, stop)
}

/// The `width` of an inline style, and its number without the unit.
///
/// The value is what follows `width`, a `:` and white space, up to a `;`, trimmed; the
/// number is the value without the trailing characters that are neither a digit nor a
/// point. There is none without `width`, without the `:`, or with an empty value.
pub open spec fn width_of(style: Seq<char>) -> Option<(Seq<char>, Seq<char>)> {
    match chars::first_occurrence(style, "width"@) {
        None => None,
        Some(at) => {
            let after = style.subrange(at + 5, style.len() as int);
            let piece = match chars::first_occurrence(after, "width"@) {
                Some(next) => after.subrange(0, next),
                None => after,
            };
            let rest = chars::trimmed_start(piece);
            if rest.len() == 0 || rest[0] != ':' {
                None
            } else {
                let tail = rest.subrange(1, rest.len() as int);
                let raw = match chars::index_from(tail, ';', 0) {
                    Some(semi) => tail.subrange(0, semi),
                    None => tail,
                };
                let value = chars::trimmed(raw);
                if value.len() == 0 {
                    None
                } else {
                    Some((value, numeric_part(value)))
                }
            }
        },
    }
}

/// The `width` of an inline style (`"width: 94%;"` gives `94%`) and its number without
/// the unit (`94`). Whether the number is above zero is for the caller to read: an
/// episode that nobody started has `width: 0%`, which means "no progress".
pub fn width_value(style: &str) -> (r: Option<(String, String)>)
    ensures
        (match r {
            Some((v, n)) => Some((v@, n@)),
            None => None,
        }) == width_of(style@),
{
    let s = chars::chars_of(style);
    let key = chars::chars_of("width");
    proof {
        reveal_strlit("width");
    }
    let at = match chars::find(s.as_slice(), key.as_slice()) {
        Some(a) => a,
        None => {
            return None;
        },
    };
    proof {
        assert(key@.len() == 5);
        assert(chars::occurs_at(s@, key@, at as int));
        assert(at + 5 <= s@.len());
        assert(s@.len() == s.len());
    }
    let after = chars::slice_of(s.as_slice(), at + 5, s.len());
    let piece = match chars::find(after.as_slice(), key.as_slice()) {
        Some(next) => chars::slice_of(after.as_slice(), 0, next),
        None => after,
    };
    let rest = chars::trim_start(piece.as_slice());
    if rest.len() == 0 || rest[0] != ':' {
        return None;
    }
    let tail = chars::slice_of(rest.as_slice(), 1, rest.len());
    let raw = match chars::find_char_from(tail.as_slice(), ';', 0) {
        Some(semi) => chars::slice_of(tail.as_slice(), 0, semi),
        None => tail,
    };
    let value = chars::trim(raw.as_slice());
    if value.len() == 0 {
        return None;
    }
    let number = numeric_of(value.as_slice());
    Some((chars::string_of(value.as_slice()), chars::string_of(number.as_slice())))
}

/// The id of the episode anchor of a list card is `episodePartId` and the part id.
pub const PART_ANCHOR_PREFIX: &'static str = "episodePartId";

/// The part id in the id of an episode anchor: what follows the prefix, where that is
/// not empty.
pub fn part_id_of_anchor(id: &str) -> (r: Option<String>)
    ensures
        match r {
            Some(p) => chars::has_prefix(id@, PART_ANCHOR_PREFIX@) && id@.len() > PART_ANCHOR_PREFIX@.len()
                && p@ == id@.subrange(PART_ANCHOR_PREFIX@.len() as int, id@.len() as int),
            None => !chars::has_prefix(id@, PART_ANCHOR_PREFIX@) || id@.len() == PART_ANCHOR_PREFIX@.len(),
        },
{
    let s = chars::chars_of(id);
    let prefix = chars::chars_of(PART_ANCHOR_PREFIX);
    if chars::starts_with(s.as_slice(), prefix.as_slice()) && s.len() > prefix.len() {
        Some(chars::string_of(chars::slice_of(s.as_slice(), prefix.len(), s.len()).as_slice()))
    } else {
        None
    }
}

/// A mark of a card in the icons of the site.
#[derive(Clone, Copy, PartialEq, Eq, Debug, Structural)]
pub enum CardIcon {
    New,
    Complete,
}

/// What the DOM of a card holds, as read from the page.
pub struct CardFields {
    /// From the link of the card, else the hidden input.
    pub work_id: Option<String>,
    pub part_id: Option<String>,
    /// The title in the header of a card with a header (`section > header p.line2`).
    pub header_title: Option<String>,
    /// The work title line (`h2.line1`).
    pub work_line: Option<String>,
    /// The second line (`h3.line2`): the work title of a card without a header, the
    /// episode title of a card with one.
    pub second_line: Option<String>,
    /// The episode line (`.episode.line1`).
    pub episode_line: Option<String>,
    pub number: Option<String>,
    /// The `data-src` and the `src` of the thumbnail.
    pub data_src: Option<String>,
    pub src: Option<String>,
    pub watched: bool,
    /// The inline width of the progress bar, where it is above zero.
    pub progress_width: Option<String>,
    /// The classes of each icon, in their order.
    pub icon_classes: Vec<String>,
    /// The text of each option item, in their order.
    pub options: Vec<String>,
}

/// What a card shows.
pub struct CardData {
    pub link: Option<Link>,
    pub work: Option<String>,
    pub number: Option<String>,
    pub title: Option<String>,
    pub thumb: Option<String>,
    pub watched: bool,
    pub progress: Option<String>,
    /// The marks, then the option texts.
    pub icons: Vec<CardIcon>,
    pub options: Vec<String>,
}

/// The view of an optional text.
pub open spec fn text_view(t: Option<String>) -> Option<Seq<char>> {
    match t {
        Some(v) => Some(v@),
        None => None,
    }
}

/// The work title: the header's, else the work line, else, without a header, the
/// second line.
pub open spec fn card_work(header: Option<Seq<char>>, work_line: Option<Seq<char>>, second: Option<
    Seq<char>,
>) -> Option<Seq<char>> {
    if header is Some {
        header
    } else if work_line is Some {
        work_line
    } else {
        second
    }
}

/// The episode title: the episode line, else, with a header, the second line.
pub open spec fn card_title(header: Option<Seq<char>>, episode: Option<Seq<char>>, second: Option<
    Seq<char>,
>) -> Option<Seq<char>> {
    if episode is Some {
        episode
    } else if header is Some {
        second
    } else {
        None
    }
}

/// The thumbnail: a `data-src` that is not empty, else the `src`; nothing where that is
/// empty or the placeholder of the lazy load (`lazySpace`).
pub open spec fn card_thumb(data_src: Option<Seq<char>>, src: Option<Seq<char>>) -> Option<
    Seq<char>,
> {
    let picked = if data_src matches Some(d) && d.len() > 0 {
        data_src
    } else {
        src
    };
    match picked {
        Some(t) => if t.len() > 0 && !chars::has_infix(t, "lazySpace"@) {
            Some(t)
        } else {
            None
        },
        None => None,
    }
}

/// The progress: the width of the bar, else `100%` for a watched card.
pub open spec fn card_progress(width: Option<Seq<char>>, watched: bool) -> Option<Seq<char>> {
    if width is Some {
        width
    } else if watched {
        Some("100%"@)
    } else {
        None
    }
}

/// The mark of an icon with these classes.
pub open spec fn icon_of(classes: Seq<char>) -> Option<CardIcon> {
    if chars::has_infix(classes, "iconTextNew"@) {
        Some(CardIcon::New)
    } else if chars::has_infix(classes, "iconTextComplete"@) {
        Some(CardIcon::Complete)
    } else {
        None
    }
}

/// The marks of the icons, in their order.
pub open spec fn icons_of(classes: Seq<String>) -> Seq<CardIcon>
    decreases classes.len(),
{
    if classes.len() == 0 {
        Seq::empty()
    } else {
        let rest = icons_of(classes.drop_last());
        match icon_of(classes.last()@) {
            Some(i) => rest.push(i),
            None => rest,
        }
    }
}

/// The option texts without the spaces at their ends, the empty ones left out.
pub open spec fn options_of(items: Seq<String>) -> Seq<Seq<char>>
    decreases items.len(),
{
    if items.len() == 0 {
        Seq::empty()
    } else {
        let rest = options_of(items.drop_last());
        let t = chars::trimmed(items.last()@);
        if t.len() > 0 {
            rest.push(t)
        } else {
            rest
        }
    }
}

fn pick_thumb(data_src: Option<String>, src: Option<String>) -> (r: Option<String>)
    ensures
        text_view(r) == card_thumb(text_view(data_src), text_view(src)),
{
    let picked = match data_src {
        Some(d) => if chars::chars_of(d.as_str()).len() > 0 {
            Some(d)
        } else {
            src
        },
        None => src,
    };
    match picked {
        Some(t) => {
            let c = chars::chars_of(t.as_str());
            if c.len() > 0 && !chars::contains(c.as_slice(), chars::chars_of("lazySpace").as_slice()) {
                Some(t)
            } else {
                None
            }
        },
        None => None,
    }
}

/// A card from what its DOM holds: where it goes, its titles, its thumbnail, its
/// progress and its marks.
pub fn card_from(f: CardFields) -> (c: CardData)
    ensures
        ({
            let link = if f.part_id is Some {
                Some(Link::Play { part_id: f.part_id->0, work_id: f.work_id })
            } else if f.work_id is Some {
                Some(Link::Work { work_id: f.work_id->0 })
            } else {
                None
            };
            c.link == link
        }),
        text_view(c.work) == card_work(
            text_view(f.header_title),
            text_view(f.work_line),
            text_view(f.second_line),
        ),
        text_view(c.title) == card_title(
            text_view(f.header_title),
            text_view(f.episode_line),
            text_view(f.second_line),
        ),
        text_view(c.number) == text_view(f.number),
        text_view(c.thumb) == card_thumb(text_view(f.data_src), text_view(f.src)),
        c.watched == f.watched,
        text_view(c.progress) == card_progress(text_view(f.progress_width), f.watched),
        c.icons@ == icons_of(f.icon_classes@),
        c.options@.map_values(|o: String| o@) == options_of(f.options@),
{
    let (work, title) = match f.header_title {
        Some(h) => (
            Some(h),
            match f.episode_line {
                Some(e) => Some(e),
                None => f.second_line,
            },
        ),
        None => (
            match f.work_line {
                Some(w) => Some(w),
                None => f.second_line,
            },
            f.episode_line,
        ),
    };
    let thumb = pick_thumb(f.data_src, f.src);
    let progress = match f.progress_width {
        Some(w) => Some(w),
        None => if f.watched {
            proof {
                reveal_strlit("100%");
            }
            Some(chars::string_of(chars::chars_of("100%").as_slice()))
        } else {
            None
        },
    };
    let mut icons: Vec<CardIcon> = Vec::new();
    let mut i: usize = 0;
    while i < f.icon_classes.len()
        invariant
            i <= f.icon_classes@.len(),
            icons@ == icons_of(f.icon_classes@.take(i as int)),
        decreases f.icon_classes@.len() - i,
    {
        proof {
            assert(f.icon_classes@.take(i + 1).drop_last() =~= f.icon_classes@.take(i as int));
        }
        let c = chars::chars_of(f.icon_classes[i].as_str());
        if chars::contains(c.as_slice(), chars::chars_of("iconTextNew").as_slice()) {
            icons.push(CardIcon::New);
        } else if chars::contains(c.as_slice(), chars::chars_of("iconTextComplete").as_slice()) {
            icons.push(CardIcon::Complete);
        }
        i += 1;
    }
    proof {
        assert(f.icon_classes@.take(f.icon_classes@.len() as int) =~= f.icon_classes@);
    }
    let mut options: Vec<String> = Vec::new();
    let mut k: usize = 0;
    while k < f.options.len()
        invariant
            k <= f.options@.len(),
            options@.map_values(|o: String| o@) == options_of(f.options@.take(k as int)),
        decreases f.options@.len() - k,
    {
        proof {
            assert(f.options@.take(k + 1).drop_last() =~= f.options@.take(k as int));
        }
        let t = chars::trim(chars::chars_of(f.options[k].as_str()).as_slice());
        let ghost before = options@;
        if t.len() > 0 {
            options.push(chars::string_of(t.as_slice()));
            proof {
                assert(options@.map_values(|o: String| o@) =~= before.map_values(|o: String| o@).push(
                    t@,
                ));
            }
        }
        k += 1;
    }
    proof {
        assert(f.options@.take(f.options@.len() as int) =~= f.options@);
    }
    CardData {
        link: link_of(f.work_id, f.part_id),
        work,
        number: f.number,
        title,
        thumb,
        watched: f.watched,
        progress,
        icons,
        options,
    }
}

} // verus!
