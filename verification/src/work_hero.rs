//! The hero of a work page.

use vstd::prelude::*;

use crate::card_view;
use crate::chars;

verus! {

/// The size of the hero image: 1920x1080.
pub const HERO_IMAGE_SIZE: &'static str = "10";

/// A key visual URL with its size changed to the largest one.
///
/// The file name is `<workId>_1_<size>.png` or `<workId>_1_<size>_<hash>.png`: the
/// third part, between the second and the third `_`, is the size. There is no change
/// without a `/`, without an extension, with fewer than three parts, or with a third
/// part that is not a number.
pub open spec fn upgraded(url: Seq<char>) -> Option<Seq<char>> {
    let path = card_view::path_part(url);
    match chars::last_index(path, '/') {
        None => None,
        Some(slash) => {
            let base = path.subrange(0, slash);
            let file = path.subrange(slash + 1, path.len() as int);
            match chars::last_index(file, '.') {
                None => None,
                Some(dot) => {
                    let stem = file.subrange(0, dot);
                    let extension = file.subrange(dot + 1, file.len() as int);
                    match chars::index_from(stem, '_', 0) {
                        None => None,
                        Some(first) => match chars::index_from(stem, '_', first + 1) {
                            None => None,
                            Some(second) => {
                                let end = match chars::index_from(stem, '_', second + 1) {
                                    Some(third) => third,
                                    None => stem.len() as int,
                                };
                                let size = stem.subrange(second + 1, end);
                                if !chars::all_digits(size) {
                                    None
                                } else {
                                    Some(
                                        base + seq!['/'] + stem.subrange(0, second + 1)
                                            + HERO_IMAGE_SIZE@ + stem.subrange(end, stem.len() as int)
                                            + seq!['.'] + extension + card_view::query_part(url),
                                    )
                                }
                            },
                        },
                    }
                },
            }
        },
    }
}

/// Change an image URL to the largest size (1920x1080). The hero is as wide as the
/// window, so the 1280 of the site is too small on a large screen.
pub fn upgrade_key_visual(url: &str) -> (r: Option<String>)
    ensures
        (match r {
            Some(s) => Some(s@),
            None => None,
        }) == upgraded(url@),
{
    let u = chars::chars_of(url);
    let (path, query) = match chars::find_char_from(u.as_slice(), '?', 0) {
        Some(q) => (chars::slice_of(u.as_slice(), 0, q), chars::slice_of(u.as_slice(), q, u.len())),
        None => (chars::slice_of(u.as_slice(), 0, u.len()), Vec::new()),
    };
    proof {
        assert(u@.subrange(0, u@.len() as int) =~= u@);
        assert(path@ == card_view::path_part(url@));
        assert(query@ == card_view::query_part(url@));
    }
    let slash = match chars::rfind_char(path.as_slice(), '/') {
        Some(x) => x,
        None => {
            return None;
        },
    };
    let base = chars::slice_of(path.as_slice(), 0, slash);
    let file = chars::slice_of(path.as_slice(), slash + 1, path.len());
    let dot = match chars::rfind_char(file.as_slice(), '.') {
        Some(x) => x,
        None => {
            return None;
        },
    };
    let stem = chars::slice_of(file.as_slice(), 0, dot);
    let extension = chars::slice_of(file.as_slice(), dot + 1, file.len());
    let first = match chars::find_char_from(stem.as_slice(), '_', 0) {
        Some(x) => x,
        None => {
            return None;
        },
    };
    let second = match chars::find_char_from(stem.as_slice(), '_', first + 1) {
        Some(x) => x,
        None => {
            return None;
        },
    };
    let end = match chars::find_char_from(stem.as_slice(), '_', second + 1) {
        Some(x) => x,
        None => stem.len(),
    };
    let size = chars::slice_of(stem.as_slice(), second + 1, end);
    if !chars::all_ascii_digits(size.as_slice()) {
        return None;
    }
    let mut slash_mark: Vec<char> = Vec::new();
    slash_mark.push('/');
    let mut dot_mark: Vec<char> = Vec::new();
    dot_mark.push('.');
    let a = chars::concat(base.as_slice(), slash_mark.as_slice());
    let b = chars::concat(a.as_slice(), chars::slice_of(stem.as_slice(), 0, second + 1).as_slice());
    let c = chars::concat(b.as_slice(), chars::chars_of(HERO_IMAGE_SIZE).as_slice());
    let d = chars::concat(c.as_slice(), chars::slice_of(stem.as_slice(), end, stem.len()).as_slice());
    let e = chars::concat(d.as_slice(), dot_mark.as_slice());
    let f = chars::concat(e.as_slice(), extension.as_slice());
    let g = chars::concat(f.as_slice(), query.as_slice());
    proof {
        assert(slash_mark@ =~= seq!['/']);
        assert(dot_mark@ =~= seq!['.']);
    }
    Some(chars::string_of(g.as_slice()))
}

/// The image of a key visual: its `src` where that is set and not the placeholder of the
/// lazy load (`lazySpace`), else its `data-src` where that is set.
pub open spec fn visual_source(src: Option<Seq<char>>, data_src: Option<Seq<char>>) -> Option<
    Seq<char>,
> {
    if src matches Some(s) && s.len() > 0 && !chars::has_infix(s, "lazySpace"@) {
        src
    } else if data_src matches Some(d) && d.len() > 0 {
        data_src
    } else {
        None
    }
}

/// The image of a key visual, from its `src` and its `data-src`.
pub fn key_visual_source(src: Option<String>, data_src: Option<String>) -> (r: Option<String>)
    ensures
        (match r {
            Some(v) => Some(v@),
            None => None,
        }) == visual_source(
            match src {
                Some(v) => Some(v@),
                None => None,
            },
            match data_src {
                Some(v) => Some(v@),
                None => None,
            },
        ),
{
    if let Some(s) = src {
        let c = chars::chars_of(s.as_str());
        if c.len() > 0 && !chars::contains(c.as_slice(), chars::chars_of("lazySpace").as_slice()) {
            return Some(s);
        }
    }
    match data_src {
        Some(d) => if chars::chars_of(d.as_str()).len() > 0 {
            Some(d)
        } else {
            None
        },
        None => None,
    }
}

} // verus!
