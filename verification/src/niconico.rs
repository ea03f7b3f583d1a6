//! The requests to nicovideo: the search, the watch data and the comments.
//!
//! Three steps: the snapshot search (`GET …/contents/search`), the watch data
//! (`GET www.nicovideo.jp/watch/{videoId}?responseType=json`, which gives the server, the
//! thread key and the parameters of the comments), and the comments (`POST
//! {server}/v1/threads`).

use vstd::prelude::*;

use crate::chars;

verus! {

pub const SEARCH_ENDPOINT: &'static str = "https://snapshot.search.nicovideo.jp/api/v2/snapshot/video/contents/search";
pub const WATCH_ENDPOINT: &'static str = "https://www.nicovideo.jp/watch/";
/// Identifier that the snapshot interface requires.
pub const SEARCH_CONTEXT: &'static str = "d-tweaks";
/// The fields of a search result.
pub const SEARCH_FIELDS: &'static str = "contentId,title,channelId,lengthSeconds,commentCounter,startTime";

/// The parameters of a search, in order: the words in the titles, the fields, the most
/// commented first (one request gives 100 items, and a sort by date loses the old
/// episodes, which have many more comments than the uploads of users), 100 items.
pub open spec fn search_params_of(query: Seq<char>) -> Seq<(Seq<char>, Seq<char>)> {
    seq![
        ("q"@, query),
        ("targets"@, "title"@),
        ("fields"@, SEARCH_FIELDS@),
        ("_sort"@, "-commentCounter"@),
        ("_limit"@, "100"@),
        ("_context"@, SEARCH_CONTEXT@),
    ]
}

/// The parameters of a search for `query`.
pub fn search_params(query: &str) -> (r: Vec<(&'static str, String)>)
    ensures
        r@.map_values(|p: (&'static str, String)| (p.0@, p.1@)) == search_params_of(query@),
{
    let mut r: Vec<(&'static str, String)> = Vec::new();
    r.push(("q", chars::string_of(chars::chars_of(query).as_slice())));
    r.push(("targets", chars::string_of(chars::chars_of("title").as_slice())));
    r.push(("fields", chars::string_of(chars::chars_of(SEARCH_FIELDS).as_slice())));
    r.push(("_sort", chars::string_of(chars::chars_of("-commentCounter").as_slice())));
    r.push(("_limit", chars::string_of(chars::chars_of("100").as_slice())));
    r.push(("_context", chars::string_of(chars::chars_of(SEARCH_CONTEXT).as_slice())));
    proof {
        assert(r@.map_values(|p: (&'static str, String)| (p.0@, p.1@)) =~= search_params_of(
            query@,
        ));
    }
    r
}

/// The headers that nicovideo requires, and the type of a body where there is one.
pub open spec fn headers_of(has_body: bool) -> Seq<(Seq<char>, Seq<char>)> {
    let base = seq![
        ("x-frontend-id"@, "6"@),
        ("x-frontend-version"@, "0"@),
        ("x-client-os-type"@, "others"@),
    ];
    if has_body {
        base.push(("Content-Type"@, "text/plain;charset=UTF-8"@))
    } else {
        base
    }
}

/// The headers of a request.
pub fn headers(has_body: bool) -> (r: Vec<(&'static str, &'static str)>)
    ensures
        r@.map_values(|p: (&'static str, &'static str)| (p.0@, p.1@)) == headers_of(has_body),
{
    let mut r: Vec<(&'static str, &'static str)> = Vec::new();
    r.push(("x-frontend-id", "6"));
    r.push(("x-frontend-version", "0"));
    r.push(("x-client-os-type", "others"));
    if has_body {
        r.push(("Content-Type", "text/plain;charset=UTF-8"));
    }
    proof {
        assert(r@.map_values(|p: (&'static str, &'static str)| (p.0@, p.1@)) =~= headers_of(
            has_body,
        ));
    }
    r
}

/// The URL of the watch data of a video.
pub fn watch_url(video_id: &str) -> (r: String)
    ensures
        r@ == WATCH_ENDPOINT@ + video_id@ + "?responseType=json"@,
{
    let a = chars::concat(chars::chars_of(WATCH_ENDPOINT).as_slice(), chars::chars_of(video_id).as_slice());
    let b = chars::concat(a.as_slice(), chars::chars_of("?responseType=json").as_slice());
    chars::string_of(b.as_slice())
}

/// The URL of the comments on a comment server.
pub fn threads_url(server: &str) -> (r: String)
    ensures
        r@ == server@ + "/v1/threads"@,
{
    let b = chars::concat(chars::chars_of(server).as_slice(), chars::chars_of("/v1/threads").as_slice());
    chars::string_of(b.as_slice())
}

/// Did the search succeed? Only a `meta.status` of 200 says so.
pub fn search_ok(status: Option<u32>) -> (r: bool)
    ensures
        r == (status == Some(200u32)),
{
    status == Some(200u32)
}

} // verus!
