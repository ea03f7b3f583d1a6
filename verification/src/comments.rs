//! The text of the comment column that is not a comment.

use vstd::prelude::*;

use crate::chars;

verus! {

/// The episode label as the head bar and the comment column show it: a bare number
/// becomes `第N話`; every other form stays (`第十四回`); an empty label is none.
pub open spec fn label_of(raw: Option<Seq<char>>) -> Option<Seq<char>> {
    match raw {
        Some(r) => {
            let text = chars::trimmed(r);
            if text.len() == 0 {
                None
            } else if chars::all_digits(text) {
                Some(seq!['第'] + text + seq!['話'])
            } else {
                Some(text)
            }
        },
        None => None,
    }
}

/// The episode label for the display. Some works give a bare number, such as `6`.
pub fn episode_label(raw: Option<String>) -> (r: Option<String>)
    ensures
        (match r {
            Some(s) => Some(s@),
            None => None,
        }) == label_of(
            match raw {
                Some(s) => Some(s@),
                None => None,
            },
        ),
{
    let raw = match raw {
        Some(r) => r,
        None => {
            return None;
        },
    };
    let text = chars::trim(chars::chars_of(raw.as_str()).as_slice());
    if text.len() == 0 {
        return None;
    }
    let mut all: bool = true;
    let mut i: usize = 0;
    while i < text.len()
        invariant
            i <= text@.len(),
            all == (forall|j: int| 0 <= j < i ==> chars::is_digit(#[trigger] text@[j])),
        decreases text@.len() - i,
    {
        if !chars::is_ascii_digit(text[i]) {
            all = false;
        }
        i += 1;
    }
    if all {
        let mut head: Vec<char> = Vec::new();
        head.push('第');
        let mut tail: Vec<char> = Vec::new();
        tail.push('話');
        let front = chars::concat(head.as_slice(), text.as_slice());
        let whole = chars::concat(front.as_slice(), tail.as_slice());
        proof {
            assert(whole@ =~= seq!['第'] + text@ + seq!['話']);
        }
        Some(chars::string_of(whole.as_slice()))
    } else {
        Some(chars::string_of(text.as_slice()))
    }
}

/// The state of the comment column: the episode on the screen and the number of loads.
/// A load that finishes after a newer one is discarded, so two drawings never share one
/// canvas.
pub struct CommentSession {
    /// The `partId` on the screen. Empty before the first load.
    pub part_id: String,
    /// Rises with every load (wrapping).
    pub generation: u32,
}

impl CommentSession {
    /// Before the first load.
    pub fn new() -> (s: CommentSession)
        ensures
            s.part_id@.len() == 0,
            s.generation == 0,
    {
        CommentSession { part_id: String::new(), generation: 0 }
    }

    /// Start a load of `part_id`; returns its generation.
    pub fn begin(&mut self, part_id: String) -> (generation: u32)
        ensures
            generation == (if old(self).generation == u32::MAX {
                0
            } else {
                old(self).generation + 1
            }),
            final(self).generation == generation,
            final(self).part_id == part_id,
            generation != old(self).generation,
    {
        self.generation = if self.generation == u32::MAX {
            0
        } else {
            self.generation + 1
        };
        self.part_id = part_id;
        self.generation
    }

    /// Is a load of this generation still the newest?
    pub fn is_current(&self, generation: u32) -> (r: bool)
        ensures
            r == (self.generation == generation),
    {
        self.generation == generation
    }
}

/// The episode on the screen: the one of the last load, else the one of the player,
/// else the one of the card that was clicked.
pub fn current_part_id(known: &str, frame: Option<String>, card: &str) -> (r: String)
    ensures
        r@ == (if known@.len() > 0 {
            known@
        } else {
            match frame {
                Some(f) => f@,
                None => card@,
            }
        }),
{
    let k = chars::chars_of(known);
    if k.len() > 0 {
        return chars::string_of(k.as_slice());
    }
    match frame {
        Some(f) => f,
        None => chars::string_of(chars::chars_of(card).as_slice()),
    }
}

/// What the episode interface gives for the match.
pub struct PartInfo {
    pub work: String,
    /// `第363話`. Some works have none.
    pub label: Option<String>,
    /// The episode title, to confirm a candidate.
    pub title: Option<String>,
    /// The length in seconds.
    pub duration: Option<u64>,
}

/// A text that is not blank.
pub open spec fn present(t: Option<Seq<char>>) -> Option<Seq<char>> {
    match t {
        Some(v) => if chars::trimmed(v).len() > 0 {
            Some(v)
        } else {
            None
        },
        None => None,
    }
}

/// The views of an optional text.
pub open spec fn opt_view(t: Option<String>) -> Option<Seq<char>> {
    match t {
        Some(v) => Some(v@),
        None => None,
    }
}

fn present_text(t: Option<String>) -> (r: Option<String>)
    ensures
        opt_view(r) == present(opt_view(t)),
{
    match t {
        Some(v) => {
            if chars::trim(chars::chars_of(v.as_str()).as_slice()).len() > 0 {
                Some(v)
            } else {
                None
            }
        },
        None => None,
    }
}

/// The fields of the episode interface for the match: none without a work title (then
/// there is no search); the label in its fixed form; a blank title and a length that is
/// not positive are none.
pub fn part_info_from(
    work: Option<String>,
    disp_number: Option<String>,
    title: Option<String>,
    seconds: Option<u64>,
) -> (r: Option<PartInfo>)
    ensures
        present(opt_view(work)) is None ==> r is None,
        present(opt_view(work)) is Some ==> (r matches Some(info) && Some(info.work@) == opt_view(
            work,
        ) && opt_view(info.label) == label_of(opt_view(disp_number)) && opt_view(info.title)
            == present(opt_view(title)) && info.duration == match seconds {
            Some(s) => if s > 0 {
                Some(s)
            } else {
                None
            },
            None => None,
        }),
{
    let work = match present_text(work) {
        Some(w) => w,
        None => {
            return None;
        },
    };
    Some(
        PartInfo {
            work,
            label: episode_label(disp_number),
            title: present_text(title),
            duration: match seconds {
                Some(s) => if s > 0 {
                    Some(s)
                } else {
                    None
                },
                None => None,
            },
        },
    )
}

/// What the comments are looked for with: the work title, the label, the episode title
/// and the length.
pub struct CommentTarget {
    pub work: String,
    pub label: Option<String>,
    pub title: Option<String>,
    pub duration: Option<u64>,
}

/// The target of a load: the fields of the episode interface, with the label of the card
/// where the interface gives none; without an answer from it, the work title and the
/// label of the card, and none without a work title.
pub fn comment_target(info: Option<PartInfo>, card_work: Option<String>, card_label: Option<
    String,
>) -> (r: Option<CommentTarget>)
    ensures
        match info {
            Some(i) => r matches Some(t) && t.work == i.work && t.label == (if i.label is Some {
                i.label
            } else {
                card_label
            }) && t.title == i.title && t.duration == i.duration,
            None => match card_work {
                Some(w) => r matches Some(t) && t.work == w && t.label == card_label && t.title
                    is None && t.duration is None,
                None => r is None,
            },
        },
{
    match info {
        Some(i) => Some(
            CommentTarget {
                work: i.work,
                label: match i.label {
                    Some(l) => Some(l),
                    None => card_label,
                },
                title: i.title,
                duration: i.duration,
            },
        ),
        None => match card_work {
            Some(w) => Some(CommentTarget { work: w, label: card_label, title: None, duration: None }),
            None => None,
        },
    }
}

/// How a load of comments ended.
#[derive(Clone, Copy, PartialEq, Eq, Debug, Structural)]
pub enum LoadOutcome {
    /// No work title: nothing was asked.
    NoWork,
    /// The request could not be built.
    NotSent,
    /// The comments are there.
    Found,
    /// The search found no official video.
    NotFound,
    /// The service worker answered with an error.
    Failed,
    /// The service worker did not answer.
    NoReply,
}

/// The key of the status text of an outcome.
pub fn status_key(outcome: LoadOutcome) -> (r: &'static str)
    ensures
        r == match outcome {
            LoadOutcome::NoWork => "comments.no_work",
            LoadOutcome::NotSent => "comments.failed",
            LoadOutcome::Found => "comments.count",
            LoadOutcome::NotFound => "comments.not_found",
            LoadOutcome::Failed => "comments.error",
            LoadOutcome::NoReply => "comments.no_reply",
        },
{
    match outcome {
        LoadOutcome::NoWork => "comments.no_work",
        LoadOutcome::NotSent => "comments.failed",
        LoadOutcome::Found => "comments.count",
        LoadOutcome::NotFound => "comments.not_found",
        LoadOutcome::Failed => "comments.error",
        LoadOutcome::NoReply => "comments.no_reply",
    }
}

/// What one load asks for.
pub enum LoadRequest {
    /// The service worker searches, or uses a video that the user gave before.
    Auto,
    /// Use this video for the episode and keep it.
    Pin(String),
    /// Forget the video that the user gave, and search again.
    Unpin,
}

/// The video to pin and whether to forget the pinned one, for a request.
pub fn pin_fields(request: &LoadRequest) -> (r: (Option<String>, bool))
    ensures
        match request {
            LoadRequest::Pin(v) => r.0 == Some(*v) && !r.1,
            LoadRequest::Unpin => r.0 is None && r.1,
            LoadRequest::Auto => r.0 is None && !r.1,
        },
{
    match request {
        LoadRequest::Pin(v) => (Some(v.clone()), false),
        LoadRequest::Unpin => (None, true),
        LoadRequest::Auto => (None, false),
    }
}

/// The reply of the service worker, as far as its fields decide.
#[derive(Clone, Copy, PartialEq, Eq, Debug, Structural)]
pub enum ReplyKind {
    /// `ok: true`: the comments are there.
    Comments,
    /// The search ran and found no official video.
    NotFound,
    /// Anything else: the `error` text, or "no reply".
    Failure,
}

/// The kind of a reply from its `ok` and `notFound` fields.
pub fn reply_kind(ok: Option<bool>, not_found: Option<bool>) -> (r: ReplyKind)
    ensures
        r == (if ok == Some(true) {
            ReplyKind::Comments
        } else if not_found == Some(true) {
            ReplyKind::NotFound
        } else {
            ReplyKind::Failure
        }),
{
    if ok == Some(true) {
        ReplyKind::Comments
    } else if not_found == Some(true) {
        ReplyKind::NotFound
    } else {
        ReplyKind::Failure
    }
}

} // verus!
