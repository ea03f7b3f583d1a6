//! The kind of a page of the site.
//!
//! The site also puts a class on `<html>`, but its JS adds that later, so at
//! `document_start` it is absent. The kind comes from the pathname.

use vstd::prelude::*;

use crate::chars;

verus! {

/// Kind of a page of the site.
#[derive(Debug, Clone, Copy, PartialEq, Eq, Structural)]
pub enum PageKind {
    /// Top page (tp_pc).
    Top,
    /// Work page (ci_pc).
    Work,
    /// Player (sc_d_pc).
    Player,
    /// A list (c_all_pc, mp_viw_pc, mpa_*).
    List,
    Other,
}

/// The part of a path after its last slash.
pub open spec fn last_segment(path: Seq<char>) -> Seq<char> {
    path.subrange(path.len() - chars::tail_len(path, |c: char| c != '/'), path.len() as int)
}

/// The kind of the page at `path`, from its last segment.
pub open spec fn kind_of_path(path: Seq<char>) -> PageKind {
    let last = last_segment(path);
    if last == "tp_pc"@ || last == "tp"@ {
        PageKind::Top
    } else if last == "ci_pc"@ {
        PageKind::Work
    } else if last == "sc_d_pc"@ {
        PageKind::Player
    } else if chars::has_prefix(last, "c_all_pc"@) || chars::has_prefix(last, "mp_viw"@)
        || chars::has_prefix(last, "mpa_"@) {
        PageKind::List
    } else {
        PageKind::Other
    }
}

impl PageKind {
    pub fn from_path(path: &str) -> (r: Self)
        ensures
            r == kind_of_path(path@),
    {
        let all = chars::chars_of(path);
        let p = all.as_slice();
        let mut start = p.len();
        while start > 0 && p[start - 1] != '/'
            invariant
                start <= p.len(),
                forall|k: int| start <= k < p.len() ==> #[trigger] p@[k] != '/',
            decreases start,
        {
            start -= 1;
        }
        proof {
            chars::lemma_tail_len(p@, |c: char| c != '/', start as int);
        }
        let last = chars::slice_of(p, start, p.len());
        let l = last.as_slice();
        if chars::same_chars(l, chars::chars_of("tp_pc").as_slice()) || chars::same_chars(
            l,
            chars::chars_of("tp").as_slice(),
        ) {
            PageKind::Top
        } else if chars::same_chars(l, chars::chars_of("ci_pc").as_slice()) {
            PageKind::Work
        } else if chars::same_chars(l, chars::chars_of("sc_d_pc").as_slice()) {
            PageKind::Player
        } else if chars::starts_with(l, chars::chars_of("c_all_pc").as_slice())
            || chars::starts_with(l, chars::chars_of("mp_viw").as_slice())
            || chars::starts_with(l, chars::chars_of("mpa_").as_slice()) {
            PageKind::List
        } else {
            PageKind::Other
        }
    }
}

} // verus!
