//! The id of a video of nicovideo, from what the user gives.
//!
//! The content script reads what the user pastes into the float player, and the service
//! worker tests the value again before it puts it into an address. Both sides use this
//! one function, so they cannot disagree about what is accepted.

use vstd::prelude::*;

use crate::chars;

verus! {

/// A video id has at most this many digits. `1173108780` has ten.
pub const MAX_DIGITS: usize = 12;

pub open spec fn is_lower_letter(c: char) -> bool {
    'a' <= c && c <= 'z'
}

/// `sm9`, `so12345`, `1173108780`: up to two letters and then one to twelve digits.
pub open spec fn is_video_id_text(t: Seq<char>) -> bool {
    let letters = chars::lead_len(t, |c: char| is_lower_letter(c));
    let digits = t.subrange(letters as int, t.len() as int);
    &&& letters <= 2
    &&& digits.len() > 0
    &&& digits.len() <= MAX_DIGITS
    &&& chars::all_digits(digits)
}

/// What stands before the query and the fragment.
pub open spec fn before_query(s: Seq<char>) -> Seq<char> {
    s.take(chars::lead_len(s, |c: char| c != '?' && c != '#') as int)
}

/// The last part of the path, after the slashes at the end are removed.
pub open spec fn last_path_part(s: Seq<char>) -> Seq<char> {
    let t = s.take(s.len() - chars::tail_len(s, |c: char| c == '/'));
    t.subrange(t.len() - chars::tail_len(t, |c: char| c != '/'), t.len() as int)
}

/// What stands before the last part of the path (the slashes at the end removed).
pub open spec fn path_prefix(s: Seq<char>) -> Seq<char> {
    let t = s.take(s.len() - chars::tail_len(s, |c: char| c == '/'));
    t.take(t.len() - chars::tail_len(t, |c: char| c != '/'))
}

/// An address without its `https://` or `http://`.
pub open spec fn without_scheme(p: Seq<char>) -> Seq<char> {
    if chars::has_prefix(p, "https://"@) {
        p.subrange("https://"@.len() as int, p.len() as int)
    } else if chars::has_prefix(p, "http://"@) {
        p.subrange("http://"@.len() as int, p.len() as int)
    } else {
        p
    }
}

/// A host of nicovideo: `nicovideo.jp` or one of its subdomains (`www.`, `sp.`).
pub open spec fn is_nicovideo_host(h: Seq<char>) -> bool {
    !chars::has_infix(h, "/"@) && (h == "nicovideo.jp"@ || chars::has_suffix(h, ".nicovideo.jp"@))
}

/// What may stand before an id: nothing (the id alone), `nico.ms/`, or `/watch/` on a
/// host of nicovideo; each address with or without its scheme, in any case.
pub open spec fn leads_to_video(prefix: Seq<char>) -> bool {
    let rest = without_scheme(chars::ascii_lower(prefix));
    ||| prefix.len() == 0
    ||| rest == "nico.ms/"@
    ||| (chars::has_suffix(rest, "/watch/"@) && is_nicovideo_host(
        rest.take(rest.len() - "/watch/"@.len()),
    ))
}

/// The id in an address or alone, in lower case, when it has the form of an id and
/// stands alone, after `/watch/` on nicovideo, or after `nico.ms/`.
pub open spec fn video_id_in(input: Seq<char>) -> Option<Seq<char>> {
    let q = before_query(chars::trimmed(input));
    let candidate = chars::ascii_lower(last_path_part(q));
    if is_video_id_text(candidate) && leads_to_video(path_prefix(q)) {
        Some(candidate)
    } else {
        None
    }
}

fn leads_to_video_of(prefix: &[char]) -> (r: bool)
    ensures
        r == leads_to_video(prefix@),
{
    if prefix.len() == 0 {
        return true;
    }
    let lower = chars::to_ascii_lower(prefix);
    let https = chars::chars_of("https://");
    let http = chars::chars_of("http://");
    let rest = if chars::starts_with(lower.as_slice(), https.as_slice()) {
        chars::slice_of(lower.as_slice(), https.len(), lower.len())
    } else if chars::starts_with(lower.as_slice(), http.as_slice()) {
        chars::slice_of(lower.as_slice(), http.len(), lower.len())
    } else {
        lower
    };
    proof {
        assert(rest@ == without_scheme(chars::ascii_lower(prefix@)));
    }
    if chars::same_chars(rest.as_slice(), chars::chars_of("nico.ms/").as_slice()) {
        return true;
    }
    let watch = chars::chars_of("/watch/");
    if !chars::ends_with(rest.as_slice(), watch.as_slice()) {
        return false;
    }
    let host = chars::slice_of(rest.as_slice(), 0, rest.len() - watch.len());
    proof {
        assert(host@ =~= rest@.take(rest@.len() - "/watch/"@.len()));
    }
    let h = host.as_slice();
    !chars::contains(h, chars::chars_of("/").as_slice()) && (chars::same_chars(
        h,
        chars::chars_of("nicovideo.jp").as_slice(),
    ) || chars::ends_with(h, chars::chars_of(".nicovideo.jp").as_slice()))
}

/// `sm9`, `so12345`, `1173108780`: up to two letters and then digits.
fn is_video_id(text: &[char]) -> (r: bool)
    ensures
        r == is_video_id_text(text@),
{
    let mut letters: usize = 0;
    while letters < text.len() && 'a' <= text[letters] && text[letters] <= 'z'
        invariant
            letters <= text.len(),
            forall|k: int| 0 <= k < letters ==> is_lower_letter(#[trigger] text@[k]),
        decreases text.len() - letters,
    {
        letters += 1;
    }
    proof {
        chars::lemma_lead_len(text@, |c: char| is_lower_letter(c), letters as int);
    }
    let digits = chars::slice_of(text, letters, text.len());
    let mut all = true;
    let mut i: usize = 0;
    while i < digits.len()
        invariant
            i <= digits.len(),
            all == (forall|k: int| 0 <= k < i ==> chars::is_digit(#[trigger] digits@[k])),
        decreases digits.len() - i,
    {
        if !chars::is_ascii_digit(digits[i]) {
            all = false;
        }
        i += 1;
    }
    letters <= 2 && digits.len() > 0 && digits.len() <= MAX_DIGITS && all
}

/// The id of a video, from an address or from the id itself. `None` for everything else
/// (an address of a user or of a list has a number at its end too).
///
/// These forms are accepted:
///
/// ```text
/// https://www.nicovideo.jp/watch/so46649112?ref=…
/// https://sp.nicovideo.jp/watch/sm9
/// https://nico.ms/so46649112
/// so46649112
/// ```
pub fn video_id_from(input: &str) -> (r: Option<String>)
    ensures
        r matches Some(id) ==> video_id_in(input@) == Some(id@),
        r is None ==> video_id_in(input@) is None,
{
    let all = chars::chars_of(input);
    let trimmed = chars::trim(all.as_slice());
    let t = trimmed.as_slice();

    // The query and the fragment are not part of the id
    let mut end: usize = 0;
    while end < t.len() && t[end] != '?' && t[end] != '#'
        invariant
            end <= t.len(),
            forall|k: int| 0 <= k < end ==> #[trigger] t@[k] != '?' && t@[k] != '#',
        decreases t.len() - end,
    {
        end += 1;
    }
    proof {
        chars::lemma_lead_len(t@, |c: char| c != '?' && c != '#', end as int);
    }

    // The id is the last part of the path. A trailing slash gives an empty part.
    let mut stop = end;
    while stop > 0 && t[stop - 1] == '/'
        invariant
            stop <= end <= t.len(),
            forall|k: int| stop <= k < end ==> #[trigger] t@[k] == '/',
        decreases stop,
    {
        stop -= 1;
    }
    let mut start = stop;
    while start > 0 && t[start - 1] != '/'
        invariant
            start <= stop <= end <= t.len(),
            forall|k: int| start <= k < stop ==> #[trigger] t@[k] != '/',
        decreases start,
    {
        start -= 1;
    }
    proof {
        let q = t@.take(end as int);
        assert forall|k: int| stop <= k < q.len() implies #[trigger] q[k] == '/' by {
            assert(q[k] == t@[k]);
        }
        if stop > 0 {
            assert(q[stop - 1] == t@[stop - 1]);
        }
        chars::lemma_tail_len(q, |c: char| c == '/', stop as int);
        let u = q.take(stop as int);
        assert forall|k: int| start <= k < u.len() implies #[trigger] u[k] != '/' by {
            assert(u[k] == t@[k]);
        }
        if start > 0 {
            assert(u[start - 1] == t@[start - 1]);
        }
        chars::lemma_tail_len(u, |c: char| c != '/', start as int);
        assert(u.subrange(start as int, stop as int) =~= t@.subrange(start as int, stop as int));
        assert(u.take(start as int) =~= t@.take(start as int));
    }
    let part = chars::slice_of(t, start, stop);
    let prefix = chars::slice_of(t, 0, start);
    let candidate = chars::to_ascii_lower(part.as_slice());
    if is_video_id(candidate.as_slice()) && leads_to_video_of(prefix.as_slice()) {
        Some(chars::string_of(candidate.as_slice()))
    } else {
        None
    }
}

/// A lower-case ASCII letter in upper case; any other character as it is.
pub open spec fn ascii_upper_char(c: char) -> char {
    if is_lower_letter(c) {
        ((c as u32) - 32) as char
    } else {
        c
    }
}

/// The text with its lower-case ASCII letters in upper case (`to_ascii_uppercase`).
pub open spec fn ascii_upper(s: Seq<char>) -> Seq<char> {
    s.map_values(|c: char| ascii_upper_char(c))
}

/// The characters of an id are lower-case letters and digits, and it ends with a digit.
proof fn lemma_id_chars(id: Seq<char>)
    requires
        is_video_id_text(id),
    ensures
        id.len() > 0,
        chars::is_digit(id.last()),
        forall|k: int| 0 <= k < id.len() ==> is_lower_letter(#[trigger] id[k]) || chars::is_digit(
            id[k],
        ),
{
    let letters = chars::lead_len(id, |c: char| is_lower_letter(c));
    chars::lemma_lead_len_facts(id, |c: char| is_lower_letter(c));
    let digits = id.subrange(letters as int, id.len() as int);
    assert forall|k: int| 0 <= k < id.len() implies is_lower_letter(#[trigger] id[k])
        || chars::is_digit(id[k]) by {
        if k >= letters {
            assert(id[k] == digits[k - letters]);
        }
    }
    assert(id.last() == digits[digits.len() - 1]);
}

/// An id without a prefix, whose characters are not white, `?`, `#` or `/`, reads as
/// its lower case.
proof fn lemma_alone(x: Seq<char>)
    requires
        x.len() > 0,
        forall|k: int| 0 <= k < x.len() ==> !chars::is_white(#[trigger] x[k]) && x[k] != '?'
            && x[k] != '#' && x[k] != '/',
    ensures
        before_query(chars::trimmed(x)) == x,
        last_path_part(x) == x,
        path_prefix(x) == Seq::<char>::empty(),
{
    assert(chars::trimmed_start(x) == x);
    assert(chars::trimmed_end(x) == x);
    chars::lemma_lead_len(x, |c: char| c != '?' && c != '#', x.len() as int);
    assert(x.take(x.len() as int) =~= x);
    chars::lemma_tail_len(x, |c: char| c == '/', x.len() as int);
    chars::lemma_tail_len(x, |c: char| c != '/', 0);
    assert(x.subrange(0, x.len() as int) =~= x);
    assert(x.take(0) =~= Seq::<char>::empty());
}

/// An accepted id reads back: from itself, from its upper case, and from its watch
/// address.
pub proof fn lemma_video_id_reads_back(id: Seq<char>)
    requires
        is_video_id_text(id),
    ensures
        video_id_in(id) == Some(id),
        video_id_in(ascii_upper(id)) == Some(id),
        video_id_in("https://www.nicovideo.jp/watch/"@ + id) == Some(id),
{
    lemma_id_chars(id);
    lemma_alone(id);
    assert(chars::ascii_lower(id) =~= id);
    let up = ascii_upper(id);
    assert forall|k: int| 0 <= k < up.len() implies !chars::is_white(#[trigger] up[k]) && up[k]
        != '?' && up[k] != '#' && up[k] != '/' by {
        assert(up[k] == ascii_upper_char(id[k]));
    }
    lemma_alone(up);
    assert forall|k: int| 0 <= k < id.len() implies #[trigger] chars::ascii_lower(up)[k] == id[k] by {
        assert(up[k] == ascii_upper_char(id[k]));
    }
    assert(chars::ascii_lower(up) =~= id);
    // The watch address
    let p = "https://www.nicovideo.jp/watch/"@;
    reveal_strlit("https://www.nicovideo.jp/watch/");
    reveal_strlit("https://");
    reveal_strlit("http://");
    reveal_strlit("nico.ms/");
    reveal_strlit("/watch/");
    reveal_strlit("nicovideo.jp");
    reveal_strlit(".nicovideo.jp");
    reveal_strlit("/");
    reveal_strlit("www.nicovideo.jp/watch/");
    reveal_strlit("www.nicovideo.jp");
    let w = p + id;
    assert(p.len() == 31);
    assert forall|k: int| 0 <= k < w.len() implies !chars::is_white(#[trigger] w[k]) && w[k]
        != '?' && w[k] != '#' by {
        if k >= 31 {
            assert(w[k] == id[k - 31]);
        }
    }
    assert(chars::trimmed_start(w) == w);
    assert(w.last() == id.last());
    assert(chars::trimmed_end(w) == w);
    chars::lemma_lead_len(w, |c: char| c != '?' && c != '#', w.len() as int);
    assert(w.take(w.len() as int) =~= w);
    chars::lemma_tail_len(w, |c: char| c == '/', w.len() as int);
    assert(w.take(w.len() as int) =~= w);
    assert forall|k: int| 31 <= k < w.len() implies #[trigger] w[k] != '/' by {
        assert(w[k] == id[k - 31]);
    }
    assert(w[30] == '/');
    chars::lemma_tail_len(w, |c: char| c != '/', 31);
    assert(w.subrange(31, w.len() as int) =~= id);
    assert(w.take(31) =~= p);
    assert(last_path_part(w) == id);
    assert(path_prefix(w) == p);
    assert(chars::ascii_lower(p) =~= p);
    assert(chars::has_prefix(p, "https://"@));
    let rest = without_scheme(p);
    assert(rest =~= p.subrange(8, 31));
    assert(rest =~= "www.nicovideo.jp/watch/"@);
    let host = rest.take(rest.len() - 7);
    assert(host =~= "www.nicovideo.jp"@);
    assert(!chars::has_infix(host, "/"@)) by {
        assert forall|at: int| !chars::occurs_at(host, "/"@, at) by {
            if 0 <= at && at + 1 <= host.len() {
                assert(host.subrange(at, at + 1)[0] == host[at]);
            }
        }
    }
    assert(chars::has_suffix(host, ".nicovideo.jp"@));
    assert(chars::has_suffix(rest, "/watch/"@));
    assert(leads_to_video(p));
}

} // verus!
