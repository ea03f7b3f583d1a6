//! The text of the summary, the cast and the staff of a work page.
//!
//! The items are separated by a full-width slash, and a value can also have one:
//!
//! ```text
//! 原作:著者名「原作タイトル」（レーベル／出版社刊）／キャラクターデザイン:担当者名
//!                                             ^ not a separator
//! ```
//!
//! A simple split gives `（レーベル` and `出版社刊）`, so the brackets are counted and
//! the text is split only outside of them.

use vstd::prelude::*;

use crate::chars;

verus! {

/// An opening bracket: `（`, `(`, `「`, `『` or `【`. A separator inside the brackets is
/// not a separator.
pub open spec fn is_open(c: char) -> bool {
    c == '（' || c == '(' || c == '「' || c == '『' || c == '【'
}

/// A closing bracket: `）`, `)`, `」`, `』` or `】`.
pub open spec fn is_close(c: char) -> bool {
    c == '）' || c == ')' || c == '」' || c == '』' || c == '】'
}

fn is_open_char(c: char) -> (r: bool)
    ensures
        r == is_open(c),
{
    c == '（' || c == '(' || c == '「' || c == '『' || c == '【'
}

fn is_close_char(c: char) -> (r: bool)
    ensures
        r == is_close(c),
{
    c == '）' || c == ')' || c == '」' || c == '』' || c == '】'
}

/// The bracket depth after the first `n` characters. It never goes below 0, so a
/// bracket without its pair does not break anything.
pub open spec fn depth_after(s: Seq<char>, n: int) -> nat
    decreases n,
{
    if n <= 0 {
        0
    } else {
        let d = depth_after(s, n - 1);
        let c = s[n - 1];
        if is_open(c) {
            d + 1
        } else if is_close(c) {
            if d > 0 {
                (d - 1) as nat
            } else {
                0
            }
        } else {
            d
        }
    }
}

/// The pieces of the first `n` characters, cut at every `separator` outside of the
/// brackets; the last piece is the one still open.
pub open spec fn pieces(s: Seq<char>, separator: char, n: int) -> Seq<Seq<char>>
    decreases n,
{
    if n <= 0 {
        seq![Seq::<char>::empty()]
    } else {
        let before = pieces(s, separator, n - 1);
        if s[n - 1] == separator && depth_after(s, n) == 0 {
            before.push(Seq::<char>::empty())
        } else {
            before.update(before.len() - 1, before.last().push(s[n - 1]))
        }
    }
}

/// The pieces, trimmed, without the empty ones.
pub open spec fn kept_pieces(ps: Seq<Seq<char>>) -> Seq<Seq<char>>
    decreases ps.len(),
{
    if ps.len() == 0 {
        ps
    } else {
        let rest = kept_pieces(ps.drop_last());
        if chars::trimmed(ps.last()).len() > 0 {
            rest.push(chars::trimmed(ps.last()))
        } else {
            rest
        }
    }
}

/// The items of `text`, split on `separator` outside of the brackets.
pub open spec fn split_items(text: Seq<char>, separator: char) -> Seq<Seq<char>> {
    kept_pieces(pieces(text, separator, text.len() as int))
}

proof fn lemma_pieces_nonempty(s: Seq<char>, separator: char, n: int)
    ensures
        pieces(s, separator, n).len() >= 1,
    decreases n,
{
    if n > 0 {
        lemma_pieces_nonempty(s, separator, n - 1);
    }
}

/// Split on `separator`, but only outside of the brackets. The items are trimmed, and
/// an empty item is dropped.
pub fn split_top_level(text: &str, separator: char) -> (r: Vec<String>)
    ensures
        r@.len() == split_items(text@, separator).len(),
        forall|k: int| 0 <= k < r@.len() ==> (#[trigger] r@[k])@ == split_items(text@, separator)[k],
{
    let s = chars::chars_of(text);
    let mut done: Vec<Vec<char>> = Vec::new();
    let mut current: Vec<char> = Vec::new();
    let mut depth: usize = 0;
    let mut i: usize = 0;
    while i < s.len()
        invariant
            i <= s@.len(),
            s@ == text@,
            depth == depth_after(s@, i as int),
            depth <= i,
            done@.len() + 1 == pieces(s@, separator, i as int).len(),
            forall|k: int| 0 <= k < done@.len() ==> (#[trigger] done@[k])@ == pieces(s@, separator, i as int)[k],
            current@ == pieces(s@, separator, i as int).last(),
        decreases s@.len() - i,
    {
        let c = s[i];
        proof {
            lemma_pieces_nonempty(s@, separator, i as int);
        }
        if is_open_char(c) {
            depth = depth + 1;
        } else if is_close_char(c) {
            if depth > 0 {
                depth = depth - 1;
            }
        }
        let ghost before = pieces(s@, separator, i as int);
        let ghost old_done = done@;
        if c == separator && depth == 0 {
            done.push(current);
            current = Vec::new();
            proof {
                assert(pieces(s@, separator, i + 1) == before.push(Seq::<char>::empty()));
                assert forall|k: int| 0 <= k < done@.len() implies (#[trigger] done@[k])@ == pieces(
                    s@,
                    separator,
                    i + 1,
                )[k] by {
                    if k < done@.len() - 1 {
                        assert(done@[k] == old_done[k]);
                    }
                }
            }
        } else {
            current.push(c);
        }
        i += 1;
    }
    proof {
        lemma_pieces_nonempty(s@, separator, s@.len() as int);
    }
    done.push(current);
    let mut r: Vec<String> = Vec::new();
    let mut k: usize = 0;
    while k < done.len()
        invariant
            k <= done@.len(),
            done@.len() == pieces(s@, separator, s@.len() as int).len(),
            forall|j: int| 0 <= j < done@.len() ==> (#[trigger] done@[j])@ == pieces(s@, separator, s@.len() as int)[j],
            r@.len() == kept_pieces(pieces(s@, separator, s@.len() as int).take(k as int)).len(),
            forall|j: int| 0 <= j < r@.len() ==> (#[trigger] r@[j])@ == kept_pieces(pieces(s@, separator, s@.len() as int).take(k as int))[j],
        decreases done@.len() - k,
    {
        let ghost ps = pieces(s@, separator, s@.len() as int);
        proof {
            assert(ps.take(k + 1).drop_last() =~= ps.take(k as int));
        }
        let item = chars::trim(done[k].as_slice());
        if item.len() > 0 {
            r.push(chars::string_of(item.as_slice()));
        }
        k += 1;
    }
    proof {
        let ps = pieces(s@, separator, s@.len() as int);
        assert(ps.take(ps.len() as int) =~= ps);
    }
    r
}

/// The separator of a role and a name, half width or full width.
pub open spec fn is_colon(c: char) -> bool {
    c == ':' || c == '：'
}

/// A colon outside of the brackets with a label before it and a value after it.
pub open spec fn is_pair_point(s: Seq<char>, n: int) -> bool {
    &&& 0 <= n < s.len()
    &&& is_colon(s[n])
    &&& depth_after(s, n) == 0
    &&& chars::trimmed(s.subrange(0, n)).len() > 0
    &&& chars::trimmed(s.subrange(n + 1, s.len() as int)).len() > 0
}

/// The first such colon from `n` on.
pub open spec fn pair_point_from(s: Seq<char>, n: int) -> Option<int>
    decreases s.len() - n,
{
    if n < 0 || n >= s.len() {
        None
    } else if is_pair_point(s, n) {
        Some(n)
    } else {
        pair_point_from(s, n + 1)
    }
}

/// `role:name` as the role and the name; without a separator, only the name.
pub open spec fn pair_of(s: Seq<char>) -> (Option<Seq<char>>, Seq<char>) {
    match pair_point_from(s, 0) {
        Some(n) => (
            Some(chars::trimmed(s.subrange(0, n))),
            chars::trimmed(s.subrange(n + 1, s.len() as int)),
        ),
        None => (None, chars::trimmed(s)),
    }
}

/// Split `role:name`. Without a separator, only the name.
///
/// The separator can be half width or full width (`[キャスト]` uses `:` and the staff
/// of the tags uses `：`). A colon inside brackets is not a separator.
pub fn parse_pair(item: &str) -> (r: (Option<String>, String))
    ensures
        (match r.0 {
            Some(label) => Some(label@),
            None => None,
        }) == pair_of(item@).0,
        r.1@ == pair_of(item@).1,
{
    let s = chars::chars_of(item);
    let mut depth: usize = 0;
    let mut i: usize = 0;
    while i < s.len()
        invariant
            i <= s@.len(),
            s@ == item@,
            depth == depth_after(s@, i as int),
            depth <= i,
            pair_point_from(s@, 0) == pair_point_from(s@, i as int),
        decreases s@.len() - i,
    {
        let c = s[i];
        if is_open_char(c) {
            depth = depth + 1;
        } else if is_close_char(c) {
            if depth > 0 {
                depth = depth - 1;
            }
        } else if (c == ':' || c == '：') && depth == 0 {
            let label = chars::trim(chars::slice_of(s.as_slice(), 0, i).as_slice());
            let value = chars::trim(chars::slice_of(s.as_slice(), i + 1, s.len()).as_slice());
            if label.len() > 0 && value.len() > 0 {
                return (Some(chars::string_of(label.as_slice())), chars::string_of(value.as_slice()));
            }
        }
        i += 1;
    }
    (None, chars::string_of(chars::trim(s.as_slice()).as_slice()))
}

/// The content of a paragraph that starts with `[label]`, such as `[キャスト] …`.
pub open spec fn after_label(text: Seq<char>, label: Seq<char>) -> Option<Seq<char>> {
    let t = chars::trimmed(text);
    let head = seq!['['] + label + seq![']'];
    if chars::has_prefix(t, head) {
        Some(chars::trimmed(t.subrange(head.len() as int, t.len() as int)))
    } else {
        None
    }
}

/// The content of a paragraph that starts with a label, such as `[キャスト] …`.
pub fn strip_prefix_label(text: &str, label: &str) -> (r: Option<String>)
    ensures
        (match r {
            Some(v) => Some(v@),
            None => None,
        }) == after_label(text@, label@),
{
    let t = chars::trim(chars::chars_of(text).as_slice());
    let mut open: Vec<char> = Vec::new();
    open.push('[');
    let mut close: Vec<char> = Vec::new();
    close.push(']');
    let named = chars::concat(open.as_slice(), chars::chars_of(label).as_slice());
    let head = chars::concat(named.as_slice(), close.as_slice());
    proof {
        assert(head@ =~= seq!['['] + label@ + seq![']']);
    }
    if chars::starts_with(t.as_slice(), head.as_slice()) {
        let rest = chars::slice_of(t.as_slice(), head.len(), t.len());
        Some(chars::string_of(chars::trim(rest.as_slice()).as_slice()))
    } else {
        None
    }
}

/// The labels of the paragraphs of the cast block, in the order of the blocks.
pub open spec fn detail_labels() -> Seq<Seq<char>> {
    seq!["キャスト"@, "スタッフ"@, "製作年"@]
}

/// The blocks of a paragraph among the labels from `k` on: for each label that the
/// paragraph starts with, its items, where there are any.
pub open spec fn blocks_from(text: Seq<char>, k: int) -> Seq<(Seq<char>, Seq<Seq<char>>)>
    decreases 3 - k,
{
    if k < 0 || k >= 3 {
        Seq::empty()
    } else {
        let label = detail_labels()[k];
        let rest = blocks_from(text, k + 1);
        match after_label(text, label) {
            Some(r) => if split_items(r, '／').len() > 0 {
                seq![(label, split_items(r, '／'))] + rest
            } else {
                rest
            },
            None => rest,
        }
    }
}

/// What a paragraph of the cast block holds.
pub struct DetailParagraph {
    /// The label and the items of each block, in the order of the labels.
    pub blocks: Vec<(&'static str, Vec<String>)>,
    /// The paragraph is the copyright line (`©`).
    pub copyright: bool,
}

/// The view of the blocks.
pub open spec fn blocks_view(b: Seq<(&'static str, Vec<String>)>) -> Seq<(Seq<char>, Seq<Seq<char>>)> {
    b.map_values(|e: (&'static str, Vec<String>)| (e.0@, e.1@.map_values(|x: String| x@)))
}

/// Read a paragraph of the cast block: its blocks of cast, staff and year, and whether it
/// is the copyright line.
pub fn detail_paragraph(text: &str) -> (r: DetailParagraph)
    ensures
        blocks_view(r.blocks@) == blocks_from(text@, 0),
        r.copyright == chars::has_prefix(chars::trimmed(text@), seq!['©']),
{
    let labels: [&'static str; 3] = ["キャスト", "スタッフ", "製作年"];
    let mut blocks: Vec<(&'static str, Vec<String>)> = Vec::new();
    let mut k: usize = 3;
    while k > 0
        invariant
            k <= 3,
            labels@.map_values(|l: &'static str| l@) == detail_labels(),
            blocks_view(blocks@) == blocks_from(text@, k as int),
        decreases k,
    {
        k -= 1;
        assert(labels@[k as int]@ == detail_labels()[k as int]);
        let label = labels[k];
        match strip_prefix_label(text, label) {
            Some(rest) => {
                let items = split_top_level(rest.as_str(), '／');
                if items.len() > 0 {
                    let ghost before = blocks@;
                    let mut front: Vec<(&'static str, Vec<String>)> = Vec::new();
                    front.push((label, items));
                    front.append(&mut blocks);
                    blocks = front;
                    proof {
                        assert(items@.map_values(|x: String| x@) =~= split_items(rest@, '／'));
                        assert(blocks_view(blocks@) =~= seq![(label@, split_items(rest@, '／'))]
                            + blocks_view(before));
                    }
                }
            },
            None => {},
        }
    }
    let t = chars::trim(chars::chars_of(text).as_slice());
    let copyright = t.len() > 0 && t[0] == '©';
    proof {
        let mark = seq!['©'];
        assert(mark.len() == 1 && mark[0] == '©');
        if t@.len() > 0 {
            assert(t@.subrange(0, 1)[0] == t@[0]);
            if t@[0] == '©' {
                assert(t@.subrange(0, 1) =~= mark);
            }
        }
    }
    DetailParagraph { blocks, copyright }
}

/// A genre with spaces around its slashes (`SF/ファンタジー` reads `SF / ファンタジー`).
pub open spec fn spaced_slashes(s: Seq<char>) -> Seq<char>
    decreases s.len(),
{
    if s.len() == 0 {
        s
    } else {
        spaced_slashes(s.drop_last()) + if s.last() == '/' {
            seq![' ', '/', ' ']
        } else {
            seq![s.last()]
        }
    }
}

/// The text of a genre chip.
pub fn genre_text(text: &str) -> (r: String)
    ensures
        r@ == spaced_slashes(text@),
{
    let s = chars::chars_of(text);
    let mut out: Vec<char> = Vec::new();
    let mut i: usize = 0;
    while i < s.len()
        invariant
            i <= s@.len(),
            s@ == text@,
            out@ == spaced_slashes(s@.take(i as int)),
        decreases s@.len() - i,
    {
        proof {
            assert(s@.take(i + 1).drop_last() =~= s@.take(i as int));
        }
        if s[i] == '/' {
            out.push(' ');
            out.push('/');
            out.push(' ');
        } else {
            out.push(s[i]);
        }
        proof {
            assert(out@ =~= spaced_slashes(s@.take(i + 1)));
        }
        i += 1;
    }
    proof {
        assert(s@.take(s@.len() as int) =~= s@);
    }
    chars::string_of(out.as_slice())
}

} // verus!
