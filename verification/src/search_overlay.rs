//! The state of the float search: which reply is current, how far the list is loaded,
//! and the replies that are kept.

use vstd::prelude::*;

use crate::chars;

verus! {

/// Minimum length of the words, in characters: one character gives almost no
/// information and every user types one.
pub const MIN_QUERY_CHARS: usize = 2;
/// Replies to keep, so that a correction of the words asks nothing.
pub const CACHE_LIMIT: usize = 64;
/// Items per request.
pub const PAGE_SIZE: u32 = 60;
/// Subscription and rental.
pub const VOD_ALL: &'static str = "svod_tvod";
/// Subscription only: the server removes the rentals, so the paging and the count stay
/// correct.
pub const VOD_SVOD: &'static str = "svod";
/// The image size that the search page of the site uses (288x162).
pub const KEY_VISUAL_SITE: &'static str = "2";

/// The state of the search. One structure, so no search can raise the generation and
/// forget to clear the count.
#[derive(Clone, Copy, PartialEq, Eq, Debug, Structural)]
pub struct Progress {
    /// Number of searches: a reply of an older search is discarded.
    pub generation: u32,
    /// Cards on screen now. This is the next `start`.
    pub loaded: u32,
    /// All hits (`maxCount`).
    pub total: u32,
    /// A prefetch runs. Stops a second one.
    pub loading: bool,
}

impl Progress {
    /// Before the first search.
    pub fn new() -> (p: Progress)
        ensures
            p == (Progress { generation: 0, loaded: 0, total: 0, loading: false }),
    {
        Progress { generation: 0, loaded: 0, total: 0, loading: false }
    }

    /// Are there more items to get?
    pub fn has_more(&self) -> (r: bool)
        ensures
            r == (self.loaded > 0 && self.loaded < self.total),
    {
        self.loaded > 0 && self.loaded < self.total
    }

    /// Start a new search: clear the counts and raise the generation (wrapping), which
    /// is returned.
    pub fn begin_search(&mut self) -> (generation: u32)
        ensures
            generation == (if old(self).generation == u32::MAX {
                0
            } else {
                old(self).generation + 1
            }),
            *final(self) == (Progress { generation, loaded: 0, total: 0, loading: false }),
            generation != old(self).generation,
    {
        let next = if self.generation == u32::MAX {
            0
        } else {
            self.generation + 1
        };
        *self = Progress { generation: next, loaded: 0, total: 0, loading: false };
        next
    }

    /// Is the generation of a request still the current one?
    pub fn is_current(&self, generation: u32) -> (r: bool)
        ensures
            r == (self.generation == generation),
    {
        self.generation == generation
    }

    /// The first page arrived with `added` cards of `total` hits.
    pub fn first_page(&mut self, added: u32, total: u32)
        ensures
            *final(self) == (Progress {
                loaded: added,
                total: if total >= added {
                    total
                } else {
                    added
                },
                ..*old(self)
            }),
    {
        self.loaded = added;
        self.total = if total >= added {
            total
        } else {
            added
        };
    }

    /// The first page was empty.
    pub fn nothing_found(&mut self)
        ensures
            *final(self) == (Progress { total: 0, ..*old(self) }),
    {
        self.total = 0;
    }

    /// A further page from `start` arrived with `added` cards of `total` hits. An empty
    /// page is the end, even if the total says otherwise.
    pub fn next_page(&mut self, start: u32, added: u32, total: u32)
        requires
            start + added <= u32::MAX,
        ensures
            *final(self) == (Progress {
                loaded: (start + added) as u32,
                total: if added == 0 {
                    start
                } else if total >= start + added {
                    total
                } else {
                    (start + added) as u32
                },
                ..*old(self)
            }),
            added == 0 ==> !(final(self).loaded > 0 && final(self).loaded < final(self).total),
    {
        let loaded = start + added;
        self.loaded = loaded;
        self.total = if added == 0 {
            start
        } else if total >= loaded {
            total
        } else {
            loaded
        };
    }

    /// Mark a prefetch as running or as done.
    pub fn set_loading(&mut self, loading: bool)
        ensures
            *final(self) == (Progress { loading, ..*old(self) }),
    {
        self.loading = loading;
    }
}

/// Are the words long enough to ask the server?
pub fn long_enough(word: &str) -> (r: bool)
    ensures
        r == (word@.len() >= MIN_QUERY_CHARS),
{
    chars::chars_of(word).len() >= MIN_QUERY_CHARS
}

/// The `vodTypeList` of the rental toggle.
pub fn vod_types(no_rental: bool) -> (r: &'static str)
    ensures
        r == (if no_rental {
            VOD_SVOD
        } else {
            VOD_ALL
        }),
{
    if no_rental {
        VOD_SVOD
    } else {
        VOD_ALL
    }
}

/// The image size of the results: the size of the setting where it is a number, else
/// the one of the site (`off` means no change).
pub fn key_visual_size(setting: &str) -> (r: String)
    ensures
        r@ == (if setting@.len() > 0 && chars::all_digits(setting@) {
            setting@
        } else {
            KEY_VISUAL_SITE@
        }),
{
    let s = chars::chars_of(setting);
    if s.len() > 0 && chars::all_ascii_digits(s.as_slice()) {
        chars::string_of(s.as_slice())
    } else {
        chars::string_of(chars::chars_of(KEY_VISUAL_SITE).as_slice())
    }
}

/// The parameters of the request for one page, in order. The site omits `start=0`, and
/// so does this.
pub open spec fn params_of(
    word: Seq<char>,
    vod: Seq<char>,
    sort: Seq<char>,
    start: u32,
    length: u32,
    key_visual: Seq<char>,
) -> Seq<(Seq<char>, Seq<char>)> {
    let head = seq![("searchKey"@, word), ("vodTypeList"@, vod), ("sortKey"@, sort)];
    let head = if start > 0 {
        head.push(("start"@, chars::decimal(start as nat)))
    } else {
        head
    };
    head.push(("length"@, chars::decimal(length as nat))).push(("mainKeyVisualSize"@, key_visual))
}

/// A parameter as plain values.
pub open spec fn param_view(p: (&'static str, String)) -> (Seq<char>, Seq<char>) {
    (p.0@, p.1@)
}

fn text(s: &str) -> (r: String)
    ensures
        r@ == s@,
{
    chars::string_of(chars::chars_of(s).as_slice())
}

/// The parameters of the request for one page of results.
pub fn search_params(
    word: &str,
    vod: &str,
    sort: &str,
    start: u32,
    length: u32,
    key_visual: &str,
) -> (r: Vec<(&'static str, String)>)
    ensures
        r@.map_values(|p: (&'static str, String)| param_view(p)) == params_of(
            word@,
            vod@,
            sort@,
            start,
            length,
            key_visual@,
        ),
{
    let mut r: Vec<(&'static str, String)> = Vec::new();
    r.push(("searchKey", text(word)));
    r.push(("vodTypeList", text(vod)));
    r.push(("sortKey", text(sort)));
    if start > 0 {
        r.push(("start", chars::string_of(chars::decimal_of(start as u64).as_slice())));
    }
    r.push(("length", chars::string_of(chars::decimal_of(length as u64).as_slice())));
    r.push(("mainKeyVisualSize", text(key_visual)));
    proof {
        assert(r@.map_values(|p: (&'static str, String)| param_view(p)) =~= params_of(
            word@,
            vod@,
            sort@,
            start,
            length,
            key_visual@,
        ));
    }
    r
}

/// The badges of a result.
#[derive(Clone, Copy, PartialEq, Eq, Debug, Structural)]
pub enum SearchBadge {
    Complete,
    Favorite,
    /// One episode or more was seen, so not "seen".
    Watching,
    R15,
    Rental,
}

/// The badge of a flag of the account.
pub open spec fn flag_badge(flag: Seq<char>) -> Option<SearchBadge> {
    if flag == "complete"@ {
        Some(SearchBadge::Complete)
    } else if flag == "favorite"@ {
        Some(SearchBadge::Favorite)
    } else if flag == "viewed"@ {
        Some(SearchBadge::Watching)
    } else {
        None
    }
}

/// The badges of the flags, in their order.
pub open spec fn flag_badges(flags: Seq<String>) -> Seq<SearchBadge>
    decreases flags.len(),
{
    if flags.len() == 0 {
        Seq::empty()
    } else {
        let rest = flag_badges(flags.drop_last());
        match flag_badge(flags.last()@) {
            Some(b) => rest.push(b),
            None => rest,
        }
    }
}

/// One `R15` badge for each `r15` icon.
pub open spec fn icon_badges(icons: Seq<String>) -> Seq<SearchBadge>
    decreases icons.len(),
{
    if icons.len() == 0 {
        Seq::empty()
    } else {
        let rest = icon_badges(icons.drop_last());
        if icons.last()@ == "r15"@ {
            rest.push(SearchBadge::R15)
        } else {
            rest
        }
    }
}

/// The badges of a result: the flags of the account, the `r15` icons, and a rental
/// (`vodType` `tvod`), in that order.
pub fn search_badges(flags: &Vec<String>, icons: &Vec<String>, vod_type: Option<&str>) -> (r: Vec<
    SearchBadge,
>)
    ensures
        r@ == flag_badges(flags@) + icon_badges(icons@) + (if vod_type matches Some(v) && v@
            == "tvod"@ {
            seq![SearchBadge::Rental]
        } else {
            Seq::empty()
        }),
{
    let complete = chars::chars_of("complete");
    let favorite = chars::chars_of("favorite");
    let viewed = chars::chars_of("viewed");
    let r15 = chars::chars_of("r15");
    let mut r: Vec<SearchBadge> = Vec::new();
    let mut i: usize = 0;
    while i < flags.len()
        invariant
            i <= flags@.len(),
            complete@ == "complete"@,
            favorite@ == "favorite"@,
            viewed@ == "viewed"@,
            r@ == flag_badges(flags@.take(i as int)),
        decreases flags@.len() - i,
    {
        proof {
            assert(flags@.take(i + 1).drop_last() =~= flags@.take(i as int));
        }
        let f = chars::chars_of(flags[i].as_str());
        if chars::same_chars(f.as_slice(), complete.as_slice()) {
            r.push(SearchBadge::Complete);
        } else if chars::same_chars(f.as_slice(), favorite.as_slice()) {
            r.push(SearchBadge::Favorite);
        } else if chars::same_chars(f.as_slice(), viewed.as_slice()) {
            r.push(SearchBadge::Watching);
        }
        i += 1;
    }
    proof {
        assert(flags@.take(flags@.len() as int) =~= flags@);
    }
    let ghost from_flags = r@;
    let mut j: usize = 0;
    while j < icons.len()
        invariant
            j <= icons@.len(),
            r15@ == "r15"@,
            r@ == from_flags + icon_badges(icons@.take(j as int)),
        decreases icons@.len() - j,
    {
        proof {
            assert(icons@.take(j + 1).drop_last() =~= icons@.take(j as int));
        }
        if chars::same_chars(chars::chars_of(icons[j].as_str()).as_slice(), r15.as_slice()) {
            r.push(SearchBadge::R15);
        }
        j += 1;
    }
    proof {
        assert(icons@.take(icons@.len() as int) =~= icons@);
    }
    match vod_type {
        Some(v) => {
            if chars::same_chars(chars::chars_of(v).as_slice(), chars::chars_of("tvod").as_slice()) {
                r.push(SearchBadge::Rental);
            }
        },
        None => {},
    }
    proof {
        reveal_strlit("tvod");
    }
    r
}

/// The replies that were kept, by URL, the newest first.
pub struct PageCache<P> {
    pub entries: Vec<(String, P)>,
}

/// The first position of `url` among the keys.
pub open spec fn key_position<P>(entries: Seq<(String, P)>, url: Seq<char>, k: int) -> Option<int>
    decreases entries.len() - k,
{
    if k < 0 || k >= entries.len() {
        None
    } else if entries[k].0@ == url {
        Some(k)
    } else {
        key_position(entries, url, k + 1)
    }
}

/// The entries without those of `url`, in their order.
pub open spec fn other_entries<P>(entries: Seq<(String, P)>, url: Seq<char>) -> Seq<(String, P)>
    decreases entries.len(),
{
    if entries.len() == 0 {
        entries
    } else {
        let rest = other_entries(entries.drop_last(), url);
        if entries.last().0@ == url {
            rest
        } else {
            rest.push(entries.last())
        }
    }
}

/// No URL is kept twice.
pub open spec fn distinct_keys<P>(entries: Seq<(String, P)>) -> bool {
    forall|i: int, j: int| 0 <= i < j < entries.len() ==> entries[i].0@ != entries[j].0@
}

proof fn lemma_other_entries<P>(entries: Seq<(String, P)>, url: Seq<char>)
    ensures
        forall|k: int|
            0 <= k < other_entries(entries, url).len() ==> #[trigger] other_entries(entries, url)[k].0@
                != url,
        forall|k: int|
            0 <= k < other_entries(entries, url).len() ==> exists|j: int|
                0 <= j < entries.len() && entries[j] == #[trigger] other_entries(entries, url)[k],
        distinct_keys(entries) ==> distinct_keys(other_entries(entries, url)),
    decreases entries.len(),
{
    if entries.len() > 0 {
        let rest = entries.drop_last();
        lemma_other_entries(rest, url);
        let w = other_entries(rest, url);
        assert forall|k: int| 0 <= k < w.len() implies exists|j: int|
            0 <= j < entries.len() && entries[j] == #[trigger] w[k] by {
            let j = choose|j: int| 0 <= j < rest.len() && rest[j] == w[k];
            assert(entries[j] == w[k]);
        }
        if entries.last().0@ != url {
            let n = w.len();
            let o = other_entries(entries, url);
            assert(o == w.push(entries.last()));
            assert forall|k: int| 0 <= k < o.len() implies exists|j: int|
                0 <= j < entries.len() && entries[j] == #[trigger] o[k] by {
                if k == n {
                    assert(entries[entries.len() - 1] == o[k]);
                } else {
                    assert(o[k] == w[k]);
                }
            }
            if distinct_keys(entries) {
                assert(distinct_keys(rest));
                assert forall|a: int, b: int| 0 <= a < b < o.len() implies o[a].0@ != o[b].0@ by {
                    if b == n {
                        let j = choose|j: int| 0 <= j < rest.len() && rest[j] == w[a];
                        assert(entries[j] == w[a]);
                        assert(entries[j].0@ != entries[entries.len() - 1].0@);
                    } else {
                        assert(o[a] == w[a]);
                        assert(o[b] == w[b]);
                    }
                }
            }
        }
    }
}

/// The entries after a reply for `key` was kept: it comes first, an older reply for the
/// same URL goes, and the entries over the limit go from the end.
pub open spec fn remembered<P>(entries: Seq<(String, P)>, key: String, page: P) -> Seq<(String, P)> {
    let all = seq![(key, page)] + other_entries(entries, key@);
    all.take(
        if all.len() > CACHE_LIMIT {
            CACHE_LIMIT as int
        } else {
            all.len() as int
        },
    )
}

/// A reply that was kept is what the cache then gives for its URL, and the cache never
/// holds more than its limit.
pub proof fn lemma_cached_after_remember<P>(entries: Seq<(String, P)>, key: String, page: P)
    ensures
        key_position(remembered(entries, key, page), key@, 0) == Some(0int),
        remembered(entries, key, page)[0].1 == page,
        remembered(entries, key, page).len() <= CACHE_LIMIT,
{
}

proof fn lemma_other_entries_append<P>(a: Seq<(String, P)>, b: Seq<(String, P)>, url: Seq<char>)
    ensures
        other_entries(a + b, url) == other_entries(a, url) + other_entries(b, url),
    decreases b.len(),
{
    if b.len() == 0 {
        assert(a + b =~= a);
        assert(other_entries(a, url) + other_entries(b, url) =~= other_entries(a, url));
    } else {
        lemma_other_entries_append(a, b.drop_last(), url);
        assert((a + b).drop_last() =~= a + b.drop_last());
        assert((a + b).last() == b.last());
    }
}

impl<P> PageCache<P> {
    /// Nothing kept.
    pub fn new() -> (c: PageCache<P>)
        ensures
            c.entries@.len() == 0,
    {
        PageCache { entries: Vec::new() }
    }

    /// The reply kept for `url`.
    pub fn cached(&self, url: &str) -> (r: Option<&P>)
        ensures
            match key_position(self.entries@, url@, 0) {
                Some(i) => r == Some(&self.entries@[i].1),
                None => r is None,
            },
    {
        let wanted = chars::chars_of(url);
        let mut k: usize = 0;
        while k < self.entries.len()
            invariant
                k <= self.entries@.len(),
                wanted@ == url@,
                key_position(self.entries@, url@, 0) == key_position(self.entries@, url@, k as int),
            decreases self.entries@.len() - k,
        {
            if chars::same_chars(chars::chars_of(self.entries[k].0.as_str()).as_slice(), wanted.as_slice()) {
                return Some(&self.entries[k].1);
            }
            k += 1;
        }
        None
    }

    /// Keep the reply for `url` as the newest: an older reply for it goes, and so do
    /// the oldest replies over the limit.
    pub fn remember(&mut self, url: &str, page: P)
        ensures
            final(self).entries@ == remembered(old(self).entries@, final(self).entries@[0].0, page),
            final(self).entries@[0].0@ == url@,
            final(self).entries@.len() <= CACHE_LIMIT,
            distinct_keys(old(self).entries@) ==> distinct_keys(final(self).entries@),
    {
        let ghost before = self.entries@;
        let wanted = chars::chars_of(url);
        let mut rest = self.entries.split_off(0);
        proof {
            assert(rest@ =~= before);
            assert(before.take(0) =~= Seq::<(String, P)>::empty());
        }
        let mut fresh: Vec<(String, P)> = Vec::new();
        fresh.push((chars::string_of(wanted.as_slice()), page));
        let ghost head = fresh@[0];
        while rest.len() > 0 && fresh.len() < CACHE_LIMIT
            invariant
                wanted@ == url@,
                rest@.len() <= before.len(),
                before == before.take(before.len() - rest@.len()) + rest@,
                fresh@ == seq![head] + other_entries(before.take(before.len() - rest@.len()), url@),
                fresh@.len() <= CACHE_LIMIT,
                head.0@ == url@,
                head.1 == page,
                distinct_keys(before) ==> distinct_keys(fresh@),
            decreases rest@.len(),
        {
            let ghost consumed = before.take(before.len() - rest@.len());
            let ghost old_rest = rest@;
            let ghost old_fresh = fresh@;
            let entry = rest.remove(0);
            proof {
                assert(before.take(before.len() - rest@.len()) =~= consumed.push(entry));
                assert(before =~= consumed.push(entry) + rest@);
                assert(consumed.push(entry).drop_last() =~= consumed);
                lemma_other_entries(consumed, url@);
                lemma_other_entries(before, url@);
            }
            if !chars::same_chars(chars::chars_of(entry.0.as_str()).as_slice(), wanted.as_slice()) {
                fresh.push(entry);
                proof {
                    lemma_other_entries(consumed.push(entry), url@);
                    if distinct_keys(before) {
                        assert(distinct_keys(consumed.push(entry))) by {
                            assert forall|i: int, j: int|
                                0 <= i < j < consumed.push(entry).len() implies consumed.push(
                                entry,
                            )[i].0@ != consumed.push(entry)[j].0@ by {
                                assert(consumed.push(entry)[i] == before[i]);
                                assert(consumed.push(entry)[j] == before[j]);
                            }
                        }
                        let o = other_entries(consumed.push(entry), url@);
                        assert forall|a: int, b: int| 0 <= a < b < fresh@.len() implies fresh@[a].0@
                            != fresh@[b].0@ by {
                            if a == 0 {
                                assert(fresh@[b] == o[b - 1]);
                            } else {
                                assert(fresh@[a] == o[a - 1]);
                                assert(fresh@[b] == o[b - 1]);
                            }
                        }
                    }
                }
            } else {
                proof {
                    assert(other_entries(consumed.push(entry), url@) == other_entries(consumed, url@));
                }
            }
        }
        proof {
            let consumed = before.take(before.len() - rest@.len());
            lemma_other_entries_append(consumed, rest@, url@);
            if rest@.len() == 0 {
                assert(consumed =~= before);
            }
        }
        self.entries = fresh;
    }
}

/// What a key press does to the float search.
#[derive(Clone, Copy, PartialEq, Eq, Debug, Structural)]
pub enum SearchKey {
    /// Open the search.
    Open,
    /// Close the open search.
    Close,
    /// Leave the key to the page.
    Ignore,
}

/// The effect of a key: `Escape` closes an open search; with the shortcuts on,
/// Cmd-K / Ctrl-K and `/` (without a modifier, and not while typing in a field) open a
/// closed one.
pub open spec fn search_key_effect(
    key: Seq<char>,
    meta: bool,
    ctrl: bool,
    alt: bool,
    typing: bool,
    open: bool,
    shortcuts: bool,
) -> SearchKey {
    if key == "Escape"@ {
        if open {
            SearchKey::Close
        } else {
            SearchKey::Ignore
        }
    } else if !shortcuts || open {
        SearchKey::Ignore
    } else if ((meta || ctrl) && chars::ascii_lower(key) == "k"@) || (key == "/"@ && !meta && !ctrl
        && !alt && !typing) {
        SearchKey::Open
    } else {
        SearchKey::Ignore
    }
}

/// What a key press does to the float search.
pub fn search_key(
    key: &str,
    meta: bool,
    ctrl: bool,
    alt: bool,
    typing: bool,
    open: bool,
    shortcuts: bool,
) -> (r: SearchKey)
    ensures
        r == search_key_effect(key@, meta, ctrl, alt, typing, open, shortcuts),
{
    let k = chars::chars_of(key);
    if chars::same_chars(k.as_slice(), chars::chars_of("Escape").as_slice()) {
        return if open {
            SearchKey::Close
        } else {
            SearchKey::Ignore
        };
    }
    if !shortcuts || open {
        return SearchKey::Ignore;
    }
    let lower = chars::to_ascii_lower(k.as_slice());
    let by_k = (meta || ctrl) && chars::same_chars(lower.as_slice(), chars::chars_of("k").as_slice());
    let by_slash = chars::same_chars(k.as_slice(), chars::chars_of("/").as_slice()) && !meta && !ctrl
        && !alt && !typing;
    if by_k || by_slash {
        SearchKey::Open
    } else {
        SearchKey::Ignore
    }
}

} // verus!
