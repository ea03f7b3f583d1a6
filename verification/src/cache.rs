//! The decisions of the comment cache in `storage.local`.
//!
//! Two layers, with their own times:
//!
//! | Layer | Key | Content | Time |
//! |---|---|---|---|
//! | Map | `dt:vid:v2:<partId>` | The videoId and the title, or none | 30 days, or one day for "not found" |
//! | Comments | `dt:cmt:<videoId>` | The comments | 6 hours |
//!
//! One video can have some MB of comments, so the number of videos with comments has a
//! limit, and the oldest write goes first. The index of those videos, in write order,
//! has a copy in memory (`CommentIndex`): a change happens in one step without an
//! `await`, so two requests never lose each other's change.

use vstd::prelude::*;

use crate::chars;

verus! {

/// The map from an episode to a video, without the version.
pub const VIDEO_ROOT: &'static str = "dt:vid:";
/// The map from an episode to a video, with the version. The version goes up with every
/// change of the match logic, so the old results are not read.
pub const VIDEO_PREFIX: &'static str = "dt:vid:v2:";
/// The comments. The key is the video id, so a change of the match logic does not make
/// them wrong.
pub const COMMENT_PREFIX: &'static str = "dt:cmt:";
/// The index of the comments, in write order.
pub const COMMENT_INDEX: &'static str = "dt:cmtidx";

pub const DAY_MS: i64 = 86_400_000;
/// The map from an episode to a video does not change, so this is long.
pub const VIDEO_TTL_MS: i64 = 2_592_000_000;
/// A "not found". The channel can add the video later, so this is short.
pub const VIDEO_MISS_TTL_MS: i64 = 86_400_000;
/// The comments grow, so this is short.
pub const COMMENT_TTL_MS: i64 = 21_600_000;
/// Videos with comments in the storage.
pub const MAX_ENTRIES: usize = 20;

/// The key of the comments of a video.
pub fn comment_key(video_id: &str) -> (r: String)
    ensures
        r@ == COMMENT_PREFIX@ + video_id@,
{
    let all = chars::concat(
        chars::chars_of(COMMENT_PREFIX).as_slice(),
        chars::chars_of(video_id).as_slice(),
    );
    chars::string_of(all.as_slice())
}

/// The key of the map entry of an episode.
pub fn video_key(part_key: &str) -> (r: String)
    ensures
        r@ == VIDEO_PREFIX@ + part_key@,
{
    let all = chars::concat(
        chars::chars_of(VIDEO_PREFIX).as_slice(),
        chars::chars_of(part_key).as_slice(),
    );
    chars::string_of(all.as_slice())
}

/// A map key of an old version: it is never read again and only holds storage.
pub open spec fn is_stale_video_key(key: Seq<char>) -> bool {
    chars::has_prefix(key, VIDEO_ROOT@) && !chars::has_prefix(key, VIDEO_PREFIX@)
}

/// The keys of `keys` that belong to an old version of the map, in their order.
pub open spec fn stale_keys(keys: Seq<String>) -> Seq<String>
    decreases keys.len(),
{
    if keys.len() == 0 {
        keys
    } else {
        let rest = stale_keys(keys.drop_last());
        if is_stale_video_key(keys.last()@) {
            rest.push(keys.last())
        } else {
            rest
        }
    }
}

/// The map keys of an old version among all keys of the storage.
pub fn stale_video_keys(keys: &Vec<String>) -> (r: Vec<String>)
    ensures
        r@ == stale_keys(keys@),
{
    let root = chars::chars_of(VIDEO_ROOT);
    let prefix = chars::chars_of(VIDEO_PREFIX);
    let mut r: Vec<String> = Vec::new();
    let mut i: usize = 0;
    while i < keys.len()
        invariant
            i <= keys@.len(),
            root@ == VIDEO_ROOT@,
            prefix@ == VIDEO_PREFIX@,
            r@ == stale_keys(keys@.take(i as int)),
        decreases keys@.len() - i,
    {
        proof {
            assert(keys@.take(i + 1).drop_last() =~= keys@.take(i as int));
        }
        let key = chars::chars_of(keys[i].as_str());
        if chars::starts_with(key.as_slice(), root.as_slice()) && !chars::starts_with(
            key.as_slice(),
            prefix.as_slice(),
        ) {
            r.push(keys[i].clone());
        }
        i += 1;
    }
    proof {
        assert(keys@.take(keys@.len() as int) =~= keys@);
    }
    r
}

/// A key of the comment cache: the video map of any version, a kept comment list, or
/// the index of the lists. Clearing the cache removes these and nothing else.
pub open spec fn is_comment_cache_key(key: Seq<char>) -> bool {
    chars::has_prefix(key, VIDEO_ROOT@) || chars::has_prefix(key, COMMENT_PREFIX@) || key
        == COMMENT_INDEX@
}

/// The keys of `keys` that belong to the comment cache, in their order.
pub open spec fn comment_cache_keys_of(keys: Seq<String>) -> Seq<String>
    decreases keys.len(),
{
    if keys.len() == 0 {
        keys
    } else {
        let rest = comment_cache_keys_of(keys.drop_last());
        if is_comment_cache_key(keys.last()@) {
            rest.push(keys.last())
        } else {
            rest
        }
    }
}

/// The keys to remove when the comment cache is cleared, among all keys of the storage.
pub fn comment_cache_keys(keys: &Vec<String>) -> (r: Vec<String>)
    ensures
        r@ == comment_cache_keys_of(keys@),
{
    let root = chars::chars_of(VIDEO_ROOT);
    let comment = chars::chars_of(COMMENT_PREFIX);
    let index = chars::chars_of(COMMENT_INDEX);
    let mut r: Vec<String> = Vec::new();
    let mut i: usize = 0;
    while i < keys.len()
        invariant
            i <= keys@.len(),
            root@ == VIDEO_ROOT@,
            comment@ == COMMENT_PREFIX@,
            index@ == COMMENT_INDEX@,
            r@ == comment_cache_keys_of(keys@.take(i as int)),
        decreases keys@.len() - i,
    {
        proof {
            assert(keys@.take(i + 1).drop_last() =~= keys@.take(i as int));
        }
        let key = chars::chars_of(keys[i].as_str());
        if chars::starts_with(key.as_slice(), root.as_slice()) || chars::starts_with(
            key.as_slice(),
            comment.as_slice(),
        ) || chars::same_chars(key.as_slice(), index.as_slice()) {
            r.push(keys[i].clone());
        }
        i += 1;
    }
    proof {
        assert(keys@.take(keys@.len() as int) =~= keys@);
    }
    r
}

/// A map entry that says "not found": an entry of the current version whose value is
/// there but holds no videoId. `entry` is `None` where the key holds no value, else
/// whether the value has a videoId.
pub open spec fn is_missing_entry(key: Seq<char>, entry: Option<bool>) -> bool {
    chars::has_prefix(key, VIDEO_PREFIX@) && entry == Some(false)
}

/// The keys of the "not found" entries, in their order.
pub open spec fn missing_keys(entries: Seq<(String, Option<bool>)>) -> Seq<String>
    decreases entries.len(),
{
    if entries.len() == 0 {
        Seq::empty()
    } else {
        let rest = missing_keys(entries.drop_last());
        if is_missing_entry(entries.last().0@, entries.last().1) {
            rest.push(entries.last().0)
        } else {
            rest
        }
    }
}

/// The "not found" entries of the map, to be removed after an update of the match
/// logic: a "not found" of the old logic would hide the correction for a day.
pub fn missing_video_keys(entries: &Vec<(String, Option<bool>)>) -> (r: Vec<String>)
    ensures
        r@ == missing_keys(entries@),
{
    let prefix = chars::chars_of(VIDEO_PREFIX);
    let mut r: Vec<String> = Vec::new();
    let mut i: usize = 0;
    while i < entries.len()
        invariant
            i <= entries@.len(),
            prefix@ == VIDEO_PREFIX@,
            r@ == missing_keys(entries@.take(i as int)),
        decreases entries@.len() - i,
    {
        proof {
            assert(entries@.take(i + 1).drop_last() =~= entries@.take(i as int));
        }
        let key = chars::chars_of(entries[i].0.as_str());
        let missing = match entries[i].1 {
            Some(has_id) => !has_id,
            None => false,
        };
        if missing && chars::starts_with(key.as_slice(), prefix.as_slice()) {
            r.push(entries[i].0.clone());
        }
        i += 1;
    }
    proof {
        assert(entries@.take(entries@.len() as int) =~= entries@);
    }
    r
}

/// The video that was selected.
pub struct VideoRef {
    pub id: String,
    /// The title on nicovideo. An old cache entry has none, so it can be empty.
    pub title: String,
    /// The length on nicovideo, in seconds. A difference to dAnime shifts the comments.
    pub seconds: Option<u64>,
}

/// Result of a look in the map. Separates "nothing here" from "known to be absent".
pub enum VideoIdHit {
    Found(VideoRef),
    /// A search ran and found no official video.
    Missing,
}

/// What a map entry gives at an age (milliseconds since its write; `None` for an entry
/// without a time): a video while it is younger than 30 days, a "not found" while it
/// is younger than a day, else nothing.
pub fn video_hit(
    video_id: Option<String>,
    title: Option<String>,
    seconds: Option<u64>,
    age_ms: Option<i64>,
) -> (r: Option<VideoIdHit>)
    ensures
        age_ms is None ==> r is None,
        age_ms matches Some(age) ==> match video_id {
            Some(id) => if age < VIDEO_TTL_MS {
                r matches Some(VideoIdHit::Found(v)) && v.id == id && v.seconds == seconds
                    && v.title@ == match title {
                    Some(t) => t@,
                    None => Seq::<char>::empty(),
                }
            } else {
                r is None
            },
            None => if age < VIDEO_MISS_TTL_MS {
                r matches Some(VideoIdHit::Missing)
            } else {
                r is None
            },
        },
{
    let age = match age_ms {
        Some(a) => a,
        None => {
            return None;
        },
    };
    match video_id {
        Some(id) => {
            if age < VIDEO_TTL_MS {
                let title = match title {
                    Some(t) => t,
                    None => String::new(),
                };
                Some(VideoIdHit::Found(VideoRef { id, title, seconds }))
            } else {
                None
            }
        },
        None => {
            if age < VIDEO_MISS_TTL_MS {
                Some(VideoIdHit::Missing)
            } else {
                None
            }
        },
    }
}

/// Are cached comments of this age (milliseconds since the write; `None` for an entry
/// without a time) still to be used? Only for six hours.
pub fn comments_fresh(age_ms: Option<i64>) -> (r: bool)
    ensures
        r == (age_ms matches Some(age) && age < COMMENT_TTL_MS),
{
    match age_ms {
        Some(age) => age < COMMENT_TTL_MS,
        None => false,
    }
}

/// `ids` without the entries whose view is `id`, in their order.
pub open spec fn without(ids: Seq<String>, id: Seq<char>) -> Seq<String>
    decreases ids.len(),
{
    if ids.len() == 0 {
        ids
    } else {
        let rest = without(ids.drop_last(), id);
        if ids.last()@ == id {
            rest
        } else {
            rest.push(ids.last())
        }
    }
}

/// No id is in `ids` twice.
pub open spec fn distinct(ids: Seq<String>) -> bool {
    forall|i: int, j: int| 0 <= i < j < ids.len() ==> ids[i]@ != ids[j]@
}

pub proof fn lemma_without(ids: Seq<String>, id: Seq<char>)
    ensures
        without(ids, id).len() <= ids.len(),
        forall|k: int| 0 <= k < without(ids, id).len() ==> #[trigger] without(ids, id)[k]@ != id,
        forall|k: int|
            0 <= k < without(ids, id).len() ==> exists|j: int|
                0 <= j < ids.len() && ids[j] == #[trigger] without(ids, id)[k],
        distinct(ids) ==> distinct(without(ids, id)),
    decreases ids.len(),
{
    if ids.len() > 0 {
        let rest = ids.drop_last();
        lemma_without(rest, id);
        let w = without(rest, id);
        assert forall|k: int| 0 <= k < w.len() implies exists|j: int|
            0 <= j < ids.len() && ids[j] == #[trigger] w[k] by {
            let j = choose|j: int| 0 <= j < rest.len() && rest[j] == w[k];
            assert(ids[j] == w[k]);
        }
        if ids.last()@ != id {
            let n = w.len();
            assert(without(ids, id) == w.push(ids.last()));
            assert forall|k: int| 0 <= k < without(ids, id).len() implies exists|j: int|
                0 <= j < ids.len() && ids[j] == #[trigger] without(ids, id)[k] by {
                if k == n {
                    assert(ids[ids.len() - 1] == without(ids, id)[k]);
                } else {
                    assert(without(ids, id)[k] == w[k]);
                }
            }
            if distinct(ids) {
                assert(distinct(rest));
                assert forall|a: int, b: int|
                    0 <= a < b < without(ids, id).len() implies without(ids, id)[a]@ != without(
                    ids,
                    id,
                )[b]@ by {
                    if b == n {
                        let j = choose|j: int| 0 <= j < rest.len() && rest[j] == w[a];
                        assert(ids[j] == w[a]);
                        assert(ids[j]@ != ids[ids.len() - 1]@);
                    } else {
                        assert(without(ids, id)[a] == w[a]);
                        assert(without(ids, id)[b] == w[b]);
                    }
                }
            }
        }
    }
}

/// The ids as texts.
pub open spec fn id_views(ids: Seq<String>) -> Seq<Seq<char>> {
    ids.map_values(|s: String| s@)
}

/// Is a text other than `id`?
pub open spec fn other_than(id: Seq<char>) -> spec_fn(Seq<char>) -> bool {
    |x: Seq<char>| x != id
}

/// The texts without `id`, in their order.
pub open spec fn without_view(v: Seq<Seq<char>>, id: Seq<char>) -> Seq<Seq<char>> {
    v.filter(other_than(id))
}

/// No text is in `v` twice.
pub open spec fn no_repeats(v: Seq<Seq<char>>) -> bool {
    forall|i: int, j: int| 0 <= i < j < v.len() ==> v[i] != v[j]
}

/// The index with `id` moved to the end, the newest.
pub open spec fn moved_to_end(v: Seq<Seq<char>>, id: Seq<char>) -> Seq<Seq<char>> {
    without_view(v, id).push(id)
}

/// The index after a write of the comments of `id` was recorded: `id` at the end, and
/// the oldest ids over the limit gone.
pub open spec fn touched(v: Seq<Seq<char>>, id: Seq<char>) -> Seq<Seq<char>> {
    let j = moved_to_end(v, id);
    j.skip(over_limit(j.len()))
}

/// The index after the older half went.
pub open spec fn halved(v: Seq<Seq<char>>) -> Seq<Seq<char>> {
    v.skip(
        if v.len() == 0 {
            0
        } else {
            (v.len() - 1) / 2
        },
    )
}

/// The index after the comments of `id` were put: recorded, then, where the first write
/// failed, halved for a second write, and, where that failed too, without `id`.
pub open spec fn index_after_put(
    v: Seq<Seq<char>>,
    id: Seq<char>,
    first_written: bool,
    second_written: bool,
) -> Seq<Seq<char>> {
    let a = touched(v, id);
    if first_written {
        a
    } else if second_written {
        halved(a)
    } else {
        without_view(halved(a), id)
    }
}

proof fn lemma_without_views(ids: Seq<String>, id: Seq<char>)
    ensures
        id_views(without(ids, id)) == without_view(id_views(ids), id),
    decreases ids.len(),
{
    if ids.len() > 0 {
        let init = ids.drop_last();
        lemma_without_views(init, id);
        assert(id_views(ids) =~= id_views(init).push(ids.last()@));
        id_views(init).lemma_filter_push(ids.last()@, other_than(id));
        if ids.last()@ != id {
            assert(id_views(without(init, id).push(ids.last())) =~= id_views(without(init, id)).push(
                ids.last()@,
            ));
        }
    }
}

/// A sequence with only texts other than `id` stays as it is without `id`.
proof fn lemma_without_none(v: Seq<Seq<char>>, id: Seq<char>)
    requires
        forall|i: int| 0 <= i < v.len() ==> v[i] != id,
    ensures
        without_view(v, id) == v,
    decreases v.len(),
{
    if v.len() > 0 {
        let init = v.drop_last();
        lemma_without_none(init, id);
        assert(init.push(v.last()) == v);
        init.lemma_filter_push(v.last(), other_than(id));
    }
}

/// Without `id`, a sequence without repeats has none, and `id` is not in it.
proof fn lemma_without_no_repeats(v: Seq<Seq<char>>, id: Seq<char>)
    requires
        no_repeats(v),
    ensures
        no_repeats(without_view(v, id)),
        forall|i: int| 0 <= i < without_view(v, id).len() ==> #[trigger] without_view(v, id)[i]
            != id,
    decreases v.len(),
{
    broadcast use vstd::seq_lib::group_filter_ensures;
    if v.len() > 0 {
        let init = v.drop_last();
        assert(no_repeats(init));
        lemma_without_no_repeats(init, id);
        assert(init.push(v.last()) == v);
        init.lemma_filter_push(v.last(), other_than(id));
        let w = without_view(init, id);
        if v.last() != id {
            assert forall|a: int, b: int|
                0 <= a < b < without_view(v, id).len() implies without_view(v, id)[a]
                != without_view(v, id)[b] by {
                if b == w.len() {
                    assert(w.contains(w[a]));
                    init.lemma_filter_contains_rev(other_than(id), w[a]);
                    let k = choose|k: int| 0 <= k < init.len() && init[k] == w[a];
                    assert(v[k] == init[k]);
                } else {
                    assert(without_view(v, id)[a] == w[a]);
                    assert(without_view(v, id)[b] == w[b]);
                }
            }
        }
    }
}

/// What putting comments does to the index: it becomes a suffix of the old index with
/// `id` moved to the end (or of that without `id`, when both writes failed), with at
/// most `MAX_ENTRIES` ids and no repeats, and it ends with `id` when a write succeeded.
pub proof fn lemma_put_comments(
    v: Seq<Seq<char>>,
    id: Seq<char>,
    first_written: bool,
    second_written: bool,
)
    requires
        no_repeats(v),
    ensures
        ({
            let r = index_after_put(v, id, first_written, second_written);
            let j = moved_to_end(v, id);
            &&& (exists|k: int| 0 <= k <= j.len() && r == j.skip(k)) || (exists|k: int|
                0 <= k <= j.len() - 1 && r == j.drop_last().skip(k))
            &&& r.len() <= MAX_ENTRIES
            &&& no_repeats(r)
            &&& (first_written || second_written) ==> r.len() > 0 && r.last() == id
        }),
{
    let j = moved_to_end(v, id);
    let w = without_view(v, id);
    lemma_without_no_repeats(v, id);
    assert(no_repeats(j)) by {
        assert forall|a: int, b: int| 0 <= a < b < j.len() implies j[a] != j[b] by {
            if b == w.len() {
                assert(j[a] == w[a]);
            } else {
                assert(j[a] == w[a] && j[b] == w[b]);
            }
        }
    }
    let o = over_limit(j.len());
    let a = touched(v, id);
    assert(a == j.skip(o));
    assert(a.len() > 0 && a.last() == id);
    let r = index_after_put(v, id, first_written, second_written);
    if first_written {
        assert(r == j.skip(o));
    } else {
        let h: int = if a.len() == 0 {
            0
        } else {
            (a.len() - 1) / 2
        };
        let b = halved(a);
        assert(b =~= j.skip(o + h));
        assert(b.len() > 0 && b.last() == id);
        if second_written {
            assert(r == j.skip(o + h));
        } else {
            let init = b.drop_last();
            assert forall|i: int| 0 <= i < init.len() implies init[i] != id by {
                assert(init[i] == j[o + h + i]);
                assert(j[j.len() - 1] == id);
            }
            lemma_without_none(init, id);
            assert(init.push(id) == b);
            init.lemma_filter_push(id, other_than(id));
            assert(r == init);
            assert(init =~= j.drop_last().skip(o + h));
        }
    }
}

/// The index that `touch` keeps: `id` last and nowhere else, no repeats where there were
/// none, and the texts of `touched`.
proof fn lemma_touched_rest(
    current: Seq<String>,
    id: Seq<char>,
    kept: Seq<String>,
    over: int,
    rest: Seq<String>,
)
    requires
        kept.len() == without(current, id).len() + 1,
        kept.drop_last() == without(current, id),
        kept.last()@ == id,
        over == over_limit(kept.len()),
        rest == kept.skip(over),
    ensures
        rest.len() > 0,
        rest.last() == kept.last(),
        rest.len() <= MAX_ENTRIES,
        forall|k: int| 0 <= k < rest.len() - 1 ==> #[trigger] rest[k]@ != id,
        distinct(current) ==> distinct(rest),
        id_views(rest) == touched(id_views(current), id),
{
    lemma_without(current, id);
    let w = without(current, id);
    assert(kept =~= w.push(kept.last()));
    assert forall|k: int| 0 <= k < rest.len() - 1 implies #[trigger] rest[k]@ != id by {
        assert(rest[k] == kept[over + k]);
        assert(kept[over + k] == w[over + k]);
    }
    if distinct(current) {
        assert forall|a: int, b: int| 0 <= a < b < rest.len() implies rest[a]@ != rest[b]@ by {
            assert(rest[a] == kept[over + a]);
            assert(rest[b] == kept[over + b]);
            assert(kept[over + a] == w[over + a]);
            if b < rest.len() - 1 {
                assert(kept[over + b] == w[over + b]);
            }
        }
    }
    lemma_without_views(current, id);
    assert(id_views(kept) =~= without_view(id_views(current), id).push(id));
    assert(id_views(rest) =~= id_views(kept).skip(over));
}

/// The next step of a write of comments, after the storage answered.
pub enum AfterWrite {
    /// The comments are stored.
    Done,
    /// The storage is full: remove the comments of these ids, then write again.
    Retry(Vec<String>),
    /// The second write failed too: the id left the index.
    GiveUp,
}

/// What to do after a write of the comments of `video_id` (`written`: the storage took
/// them; `retried`: this was the second write).
pub fn after_write(index: &mut CommentIndex, video_id: &str, retried: bool, written: bool) -> (a:
    AfterWrite)
    ensures
        written ==> a is Done && *final(index) == *old(index),
        !written ==> final(index).ids is Some,
        !written && !retried ==> (a matches AfterWrite::Retry(ev) && ev@ + index_ids(
            *final(index),
        ) == index_ids(*old(index)) && id_views(index_ids(*final(index))) == halved(
            id_views(index_ids(*old(index))),
        )),
        !written && retried ==> a is GiveUp && id_views(index_ids(*final(index))) == without_view(
            id_views(index_ids(*old(index))),
            video_id@,
        ),
{
    if written {
        AfterWrite::Done
    } else if !retried {
        let evicted = index.halve();
        AfterWrite::Retry(evicted)
    } else {
        index.drop_id(video_id);
        AfterWrite::GiveUp
    }
}

/// `ids` without the entries whose view is `id`.
fn remove_id(ids: &Vec<String>, id: &str) -> (r: Vec<String>)
    ensures
        r@ == without(ids@, id@),
{
    let mut r: Vec<String> = Vec::new();
    let mut i: usize = 0;
    while i < ids.len()
        invariant
            i <= ids@.len(),
            r@ == without(ids@.take(i as int), id@),
        decreases ids@.len() - i,
    {
        proof {
            assert(ids@.take(i + 1).drop_last() =~= ids@.take(i as int));
        }
        let same = chars::same_chars(
            chars::chars_of(ids[i].as_str()).as_slice(),
            chars::chars_of(id).as_slice(),
        );
        if !same {
            r.push(ids[i].clone());
        }
        i += 1;
    }
    proof {
        assert(ids@.take(ids@.len() as int) =~= ids@);
    }
    r
}

/// The copy in memory of the index of the comments: the video ids in write order, the
/// newest last. `None` before the first read; it goes with the service worker, and then
/// the storage gives it again.
pub struct CommentIndex {
    pub ids: Option<Vec<String>>,
}

/// The ids of an index; an index that was not read is edited as an empty one.
pub open spec fn index_ids(index: CommentIndex) -> Seq<String> {
    match index.ids {
        Some(v) => v@,
        None => Seq::empty(),
    }
}

/// The number of ids over the limit.
pub open spec fn over_limit(len: nat) -> int {
    if len > MAX_ENTRIES {
        len - MAX_ENTRIES
    } else {
        0
    }
}

impl CommentIndex {
    /// Nothing read yet.
    pub fn new() -> (index: CommentIndex)
        ensures
            index.ids is None,
    {
        CommentIndex { ids: None }
    }

    /// Must the storage be read before an edit?
    pub fn needs_load(&self) -> (r: bool)
        ensures
            r == self.ids is None,
    {
        self.ids.is_none()
    }

    /// Keep the ids that the storage gave, unless another request filled the copy
    /// during the wait: then that one stays.
    pub fn fill(&mut self, stored: Vec<String>)
        ensures
            final(self).ids == match old(self).ids {
                Some(v) => Some(v),
                None => Some(stored),
            },
    {
        if self.ids.is_none() {
            self.ids = Some(stored);
        }
    }

    /// The ids to write to the storage, in write order.
    pub fn ids(&self) -> (r: Vec<String>)
        ensures
            r@ == index_ids(*self),
    {
        match &self.ids {
            Some(v) => v.clone(),
            None => Vec::new(),
        }
    }

    /// Record a write of the comments of `video_id`: it moves to the end, the newest,
    /// and the oldest ids over the limit go. Returns those, whose comments are then
    /// removed.
    #[verifier::spinoff_prover]
    pub fn touch(&mut self, video_id: &str) -> (evicted: Vec<String>)
        ensures
            ({
                let kept = without(index_ids(*old(self)), video_id@).push(
                    final(self).ids->0@.last(),
                );
                &&& final(self).ids is Some
                &&& final(self).ids->0@.last()@ == video_id@
                &&& evicted@ + final(self).ids->0@ == kept
                &&& evicted@.len() == over_limit(kept.len())
            }),
            final(self).ids->0@.len() <= MAX_ENTRIES,
            forall|k: int|
                0 <= k < final(self).ids->0@.len() - 1 ==> #[trigger] final(self).ids->0@[k]@
                    != video_id@,
            distinct(index_ids(*old(self))) ==> distinct(final(self).ids->0@),
            id_views(final(self).ids->0@) == touched(id_views(index_ids(*old(self))), video_id@),
    {
        let current = self.ids();
        let mut kept = remove_id(&current, video_id);
        let newest = video_id.to_owned();
        kept.push(newest);
        let ghost kept_view = kept@;
        proof {
            assert(kept_view.drop_last() =~= without(current@, video_id@));
        }
        let over: usize = if kept.len() > MAX_ENTRIES {
            kept.len() - MAX_ENTRIES
        } else {
            0
        };
        let rest = kept.split_off(over);
        proof {
            assert(kept@ + rest@ =~= kept_view);
            assert(rest@ =~= kept_view.skip(over as int));
            lemma_touched_rest(current@, video_id@, kept_view, over as int, rest@);
        }
        self.ids = Some(rest);
        kept
    }

    /// A write was too large for the storage: the older half goes, and the newer half,
    /// with the newest id in it, stays. Returns the ids that went.
    pub fn halve(&mut self) -> (evicted: Vec<String>)
        ensures
            final(self).ids is Some,
            evicted@ + final(self).ids->0@ == index_ids(*old(self)),
            evicted@.len() == if index_ids(*old(self)).len() == 0 {
                0
            } else {
                (index_ids(*old(self)).len() - 1) / 2
            },
            index_ids(*old(self)).len() > 0 ==> final(self).ids->0@.len() > 0
                && final(self).ids->0@.last() == index_ids(*old(self)).last(),
            id_views(final(self).ids->0@) == halved(id_views(index_ids(*old(self)))),
    {
        let mut current = self.ids();
        let half: usize = if current.len() == 0 {
            0
        } else {
            (current.len() - 1) / 2
        };
        let ghost before = current@;
        let rest = current.split_off(half);
        proof {
            assert(current@ + rest@ =~= before);
            if before.len() > 0 {
                assert(rest@.last() == before.last());
            }
            assert(id_views(rest@) =~= halved(id_views(before)));
        }
        self.ids = Some(rest);
        current
    }

    /// Remove `video_id`: its comments could not be written, and an id without its
    /// comments would never go.
    pub fn drop_id(&mut self, video_id: &str)
        ensures
            final(self).ids == Some(final(self).ids->0),
            final(self).ids->0@ == without(index_ids(*old(self)), video_id@),
            id_views(final(self).ids->0@) == without_view(id_views(index_ids(*old(self))), video_id@),
    {
        let current = self.ids();
        self.ids = Some(remove_id(&current, video_id));
        proof {
            lemma_without_views(current@, video_id@);
        }
    }
}

/// Discard the copy of the index. Call it when the settings page removed the cache:
/// else the copy keeps ids of comments that are gone, and an eviction comes before the
/// storage is full.
pub fn forget_index(index: &mut CommentIndex)
    ensures
        final(index).ids is None,
{
    index.ids = None;
}

} // verus!
