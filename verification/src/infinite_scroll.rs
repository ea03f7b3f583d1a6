//! The infinite scroll of a list page: which page comes next, and when it ends.
//!
//! The paging of the site submits `form[name=pageForm]` with `selectPage=N`, so a GET
//! of the fields of that form and `selectPage=N` returns the next page.

use vstd::prelude::*;

use crate::chars;

verus! {

/// The values of the runs of decimal digits, in their order; a run too large for a
/// `u32` is left out.
pub open spec fn numbers_in(s: Seq<char>) -> Seq<u32>
    decreases s.len(),
{
    if s.len() == 0 {
        Seq::empty()
    } else if !chars::is_digit(s[0]) {
        numbers_in(s.drop_first())
    } else {
        let n = chars::digit_prefix_len(s);
        let rest = if 0 < n <= s.len() {
            numbers_in(s.subrange(n as int, s.len() as int))
        } else {
            Seq::empty()
        };
        match chars::decimal_u32(s.take(n as int)) {
            Some(v) => seq![v] + rest,
            None => rest,
        }
    }
}

proof fn lemma_digit_run_nonempty(s: Seq<char>)
    requires
        s.len() > 0,
        chars::is_digit(s[0]),
    ensures
        0 < chars::digit_prefix_len(s) <= s.len(),
    decreases s.len(),
{
    if s.len() > 1 && chars::is_digit(s[1]) {
        lemma_digit_run_nonempty(s.drop_first());
    } else {
        lemma_digit_prefix_bound(s);
    }
}

proof fn lemma_digit_prefix_bound(s: Seq<char>)
    ensures
        chars::digit_prefix_len(s) <= s.len(),
    decreases s.len(),
{
    if s.len() > 0 && chars::is_digit(s[0]) {
        lemma_digit_prefix_bound(s.drop_first());
    }
}

/// The numbers of a text.
pub fn numbers_of(text: &str) -> (r: Vec<u32>)
    ensures
        r@ == numbers_in(text@),
{
    let s = chars::chars_of(text);
    let mut r: Vec<u32> = Vec::new();
    let mut i: usize = 0;
    proof {
        assert(s@.subrange(0, s@.len() as int) =~= s@);
    }
    while i < s.len()
        invariant
            i <= s@.len(),
            s@ == text@,
            r@ + numbers_in(s@.subrange(i as int, s@.len() as int)) == numbers_in(s@),
        decreases s@.len() - i,
    {
        let ghost rest = s@.subrange(i as int, s@.len() as int);
        if !chars::is_ascii_digit(s[i]) {
            proof {
                assert(rest.drop_first() =~= s@.subrange(i + 1, s@.len() as int));
            }
            i += 1;
        } else {
            let end = chars::digit_run_end(s.as_slice(), i);
            proof {
                assert forall|k: int| 0 <= k < end - i implies chars::is_digit(#[trigger] rest[k]) by {
                    assert(rest[k] == s@[i + k]);
                }
                if end < s@.len() {
                    assert(rest[end - i] == s@[end as int]);
                }
                chars::lemma_digit_prefix_len(rest, end - i);
                lemma_digit_run_nonempty(rest);
                assert(rest.take(end - i) =~= s@.subrange(i as int, end as int));
                assert(rest.subrange(end - i, rest.len() as int) =~= s@.subrange(
                    end as int,
                    s@.len() as int,
                ));
            }
            let run = chars::slice_of(s.as_slice(), i, end);
            match chars::parse_digits(run.as_slice()) {
                Some(v) => {
                    r.push(v);
                    proof {
                        assert(r@ + numbers_in(s@.subrange(end as int, s@.len() as int)) =~= r@.drop_last() + (seq![v] + numbers_in(s@.subrange(end as int, s@.len() as int))));
                    }
                },
                None => {},
            }
            i = end;
        }
    }
    proof {
        assert(s@.subrange(s@.len() as int, s@.len() as int) =~= Seq::<char>::empty());
        assert(r@ + Seq::<u32>::empty() =~= r@);
    }
    r
}

/// The current page and the number of pages of the pager, which reads "1 / 24": the
/// first two numbers of its text.
pub open spec fn pager_in(text: Seq<char>) -> Option<(u32, u32)> {
    let n = numbers_in(text);
    if n.len() >= 2 {
        Some((n[0], n[1]))
    } else {
        None
    }
}

/// The current page and the number of pages, from the text of the pager.
pub fn pager_of(text: &str) -> (r: Option<(u32, u32)>)
    ensures
        r == pager_in(text@),
{
    let n = numbers_of(text);
    if n.len() >= 2 {
        Some((n[0], n[1]))
    } else {
        None
    }
}

/// The name of the field of the page number.
pub const SELECT_PAGE: &'static str = "selectPage";

/// `URLSearchParams.set` on the pairs of a query that holds each name once: the pair of
/// `name` gets the value, or a pair is added at the end.
pub open spec fn set_param(ps: Seq<(Seq<char>, Seq<char>)>, name: Seq<char>, value: Seq<char>) -> Seq<
    (Seq<char>, Seq<char>),
> {
    match first_named(ps, name, 0) {
        Some(i) => ps.update(i, (name, value)),
        None => ps.push((name, value)),
    }
}

/// The first pair of `name` from `k` on.
pub open spec fn first_named(ps: Seq<(Seq<char>, Seq<char>)>, name: Seq<char>, k: int) -> Option<int>
    decreases ps.len() - k,
{
    if k < 0 || k >= ps.len() {
        None
    } else if ps[k].0 == name {
        Some(k)
    } else {
        first_named(ps, name, k + 1)
    }
}

/// The query of a page, field by field: every named field of the form in turn, the page
/// number in place of the value of `selectPage`, and `selectPage` at the end where the
/// form has none.
pub open spec fn page_query(fields: Seq<(Seq<char>, Seq<char>)>, page: u32) -> Seq<(Seq<char>, Seq<char>)> {
    let set = fields_set(fields, page, fields.len() as int);
    if first_named(set, SELECT_PAGE@, 0) is Some {
        set
    } else {
        set.push((SELECT_PAGE@, chars::decimal(page as nat)))
    }
}

/// The pairs after the first `n` fields were set.
pub open spec fn fields_set(fields: Seq<(Seq<char>, Seq<char>)>, page: u32, n: int) -> Seq<(Seq<char>, Seq<char>)>
    decreases n,
{
    if n <= 0 {
        Seq::empty()
    } else {
        let before = fields_set(fields, page, n - 1);
        let (name, value) = fields[n - 1];
        if name.len() == 0 {
            before
        } else if name == SELECT_PAGE@ {
            set_param(before, name, chars::decimal(page as nat))
        } else {
            set_param(before, name, value)
        }
    }
}


/// The pairs as plain values.
pub open spec fn pair_views(ps: Seq<(String, String)>) -> Seq<(Seq<char>, Seq<char>)> {
    ps.map_values(|p: (String, String)| (p.0@, p.1@))
}

fn position_of_name(ps: &Vec<(String, String)>, name: &[char]) -> (r: Option<usize>)
    ensures
        r matches Some(i) ==> first_named(pair_views(ps@), name@, 0) == Some(i as int) && i
            < ps@.len(),
        r is None ==> first_named(pair_views(ps@), name@, 0) is None,
{
    let ghost views = pair_views(ps@);
    let mut k: usize = 0;
    while k < ps.len()
        invariant
            k <= ps@.len(),
            views == pair_views(ps@),
            first_named(views, name@, 0) == first_named(views, name@, k as int),
        decreases ps@.len() - k,
    {
        if chars::same_chars(chars::chars_of(ps[k].0.as_str()).as_slice(), name) {
            proof {
                assert(views[k as int].0 == name@);
                assert(first_named(views, name@, k as int) == Some(k as int));
            }
            return Some(k);
        }
        k += 1;
    }
    None
}

fn set_pair(ps: &mut Vec<(String, String)>, name: String, value: String)
    ensures
        pair_views(final(ps)@) == set_param(pair_views(old(ps)@), name@, value@),
{
    let ghost views = pair_views(ps@);
    let wanted = chars::chars_of(name.as_str());
    match position_of_name(ps, wanted.as_slice()) {
        Some(k) => {
            ps.set(k, (name, value));
            proof {
                assert(pair_views(ps@) =~= views.update(k as int, (name@, value@)));
            }
        },
        None => {
            ps.push((name, value));
            proof {
                assert(pair_views(ps@) =~= views.push((name@, value@)));
            }
        },
    }
}

/// The query of the page `page` from the fields of the paging form (name and value, in
/// the order of the form).
pub fn page_params(fields: &Vec<(String, String)>, page: u32) -> (r: Vec<(String, String)>)
    ensures
        pair_views(r@) == page_query(pair_views(fields@), page),
{
    let ghost views = pair_views(fields@);
    let number = chars::string_of(chars::decimal_of(page as u64).as_slice());
    let mut ps: Vec<(String, String)> = Vec::new();
    let select = chars::chars_of(SELECT_PAGE);
    let mut i: usize = 0;
    while i < fields.len()
        invariant
            i <= fields@.len(),
            views == pair_views(fields@),
            number@ == chars::decimal(page as nat),
            select@ == SELECT_PAGE@,
            pair_views(ps@) == fields_set(views, page, i as int),
        decreases fields@.len() - i,
    {
        let name = chars::chars_of(fields[i].0.as_str());
        proof {
            assert(views[i as int] == (fields@[i as int].0@, fields@[i as int].1@));
        }
        if name.len() > 0 {
            if chars::same_chars(name.as_slice(), select.as_slice()) {
                set_pair(&mut ps, fields[i].0.clone(), number.clone());
            } else {
                set_pair(&mut ps, fields[i].0.clone(), fields[i].1.clone());
            }
        }
        i += 1;
    }
    let ghost set = pair_views(ps@);
    let has_select = position_of_name(&ps, select.as_slice()).is_some();
    if !has_select {
        ps.push((chars::string_of(select.as_slice()), number));
        proof {
            assert(pair_views(ps@) =~= set.push((SELECT_PAGE@, chars::decimal(page as nat))));
        }
    }
    ps
}

/// The state of the scroll.
#[derive(Clone, Copy, PartialEq, Eq, Debug, Structural)]
pub struct ScrollState {
    /// The next page to get.
    pub next_page: u32,
    pub total_pages: u32,
    pub loading: bool,
    pub finished: bool,
}

/// What the status line says after a page arrived.
#[derive(Clone, Copy, PartialEq, Eq, Debug, Structural)]
pub enum Outcome {
    /// Every page is on screen.
    All,
    /// `page` of `total` is on screen; more can follow.
    Progress { page: u32, total: u32 },
    /// The page could not be read: the scroll stops and the paging of the site comes
    /// back.
    Failed,
}

/// A state that can run: while it is not finished, the next page exists.
pub open spec fn scroll_ok(s: ScrollState) -> bool {
    !s.finished ==> 1 <= s.next_page <= s.total_pages
}

impl ScrollState {
    /// The scroll of a list at page `current` of `total`; none where one page holds
    /// everything.
    pub fn start(current: u32, total: u32) -> (r: Option<ScrollState>)
        ensures
            total <= current ==> r is None,
            total > current ==> r == Some(
                ScrollState { next_page: (current + 1) as u32, total_pages: total, loading: false, finished: false },
            ),
            r matches Some(s) ==> scroll_ok(s),
    {
        if total <= current {
            None
        } else {
            Some(ScrollState { next_page: current + 1, total_pages: total, loading: false, finished: false })
        }
    }

    /// The end of the list came into view: the page to get now, if any. Nothing while a
    /// page is loading or after the end.
    pub fn on_visible(&mut self) -> (page: Option<u32>)
        ensures
            old(self).loading || old(self).finished ==> page is None && *final(self) == *old(self),
            !old(self).loading && !old(self).finished ==> page == Some(old(self).next_page)
                && *final(self) == (ScrollState { loading: true, ..*old(self) }),
            scroll_ok(*old(self)) ==> scroll_ok(*final(self)),
    {
        if self.loading || self.finished {
            return None;
        }
        self.loading = true;
        Some(self.next_page)
    }

    /// The page `page` arrived with `added` cards, or could not be read (`None`). An
    /// empty page or the last one ends the scroll.
    pub fn on_loaded(&mut self, page: u32, added: Option<u32>) -> (r: Outcome)
        requires
            page < u32::MAX,
        ensures
            !final(self).loading,
            added is None ==> r == Outcome::Failed && final(self).finished && final(self).next_page
                == old(self).next_page,
            added matches Some(n) ==> final(self).next_page == page + 1 && if n == 0 || page + 1
                > old(self).total_pages {
                r == Outcome::All && final(self).finished
            } else {
                r == (Outcome::Progress { page, total: old(self).total_pages })
                    && final(self).finished == old(self).finished
            },
            final(self).total_pages == old(self).total_pages,
            old(self).finished ==> final(self).finished,
            scroll_ok(*old(self)) ==> scroll_ok(*final(self)),
    {
        self.loading = false;
        match added {
            Some(n) => {
                self.next_page = page + 1;
                if n == 0 || self.next_page > self.total_pages {
                    self.finished = true;
                    Outcome::All
                } else {
                    Outcome::Progress { page, total: self.total_pages }
                }
            },
            None => {
                self.finished = true;
                Outcome::Failed
            },
        }
    }
}

/// Does an attribute of an appended item run script (`onclick`, `onLoad`, ...)? Such
/// attributes are removed from the items of the next page before they are shown.
pub fn is_handler_attribute(name: &str) -> (r: bool)
    ensures
        r == chars::has_prefix(chars::ascii_lower(name@), "on"@),
{
    let lower = chars::to_ascii_lower(chars::chars_of(name).as_slice());
    chars::starts_with(lower.as_slice(), chars::chars_of("on").as_slice())
}

} // verus!
