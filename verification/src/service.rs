//! The decisions of the service worker: which CSS is registered, which header rules are
//! on, and what a request for comments looks for.
//!
//! Only the CSS of the features that are on is registered, at `document_start`, so the
//! next page has it before the first paint and reads no storage.

use vstd::prelude::*;

use crate::chars;
use crate::settings;

verus! {

/// Type of the request for comments.
pub const COMMENTS_MESSAGE: &'static str = "dt/comments";
/// Type of the request of a page for its CSS, after the master switch went on while the
/// page was open.
pub const ENABLE_NOW_MESSAGE: &'static str = "dt/enable-now";

/// One dynamic registration: its id and its CSS files.
pub struct Registration {
    pub id: String,
    pub css: Vec<&'static str>,
}

/// What the registrations and the header rules must be after a change of the settings.
pub struct SyncPlan {
    pub registrations: Vec<Registration>,
    /// Rulesets to enable.
    pub enable: Vec<&'static str>,
    /// Rulesets to disable.
    pub disable: Vec<&'static str>,
}

/// The rulesets to enable and to disable: each header rule is on exactly while the
/// feature that needs it is on.
pub open spec fn rulesets_for(player_modal: bool, comments: bool) -> (Seq<Seq<char>>, Seq<
    Seq<char>,
>) {
    let on = if player_modal {
        seq![settings::RULESET_CSP@]
    } else {
        Seq::empty()
    };
    let on = if comments {
        on.push(settings::RULESET_NICO_UA@)
    } else {
        on
    };
    let off = if player_modal {
        Seq::empty()
    } else {
        seq![settings::RULESET_CSP@]
    };
    let off = if comments {
        off
    } else {
        off.push(settings::RULESET_NICO_UA@)
    };
    (on, off)
}

/// Split the two header rules into those to enable and those to disable.
pub fn ruleset_split(player_modal: bool, comments: bool) -> (r: (Vec<&'static str>, Vec<&'static str>))
    ensures
        settings::views(r.0@) == rulesets_for(player_modal, comments).0,
        settings::views(r.1@) == rulesets_for(player_modal, comments).1,
{
    let mut enable: Vec<&'static str> = Vec::new();
    let mut disable: Vec<&'static str> = Vec::new();
    if player_modal {
        enable.push(settings::RULESET_CSP);
    } else {
        disable.push(settings::RULESET_CSP);
    }
    if comments {
        enable.push(settings::RULESET_NICO_UA);
    } else {
        disable.push(settings::RULESET_NICO_UA);
    }
    proof {
        assert(settings::views(enable@) =~= rulesets_for(player_modal, comments).0);
        assert(settings::views(disable@) =~= rulesets_for(player_modal, comments).1);
    }
    (enable, disable)
}

/// The features, among the first `n`, that are on and have CSS: each gives a
/// registration with the id `dt-<feature>` and its CSS.
pub open spec fn feature_registrations(on: Seq<bool>, n: int) -> Seq<(Seq<char>, Seq<Seq<char>>)>
    decreases n,
{
    if n <= 0 {
        Seq::empty()
    } else {
        let rest = feature_registrations(on, n - 1);
        let i = n - 1;
        if i < on.len() && on[i] && settings::feature_css(i).len() > 0 {
            rest.push((settings::SCRIPT_ID_PREFIX@ + settings::feature_ids()[i], settings::feature_css(i)))
        } else {
            rest
        }
    }
}

/// A registration as plain values.
pub open spec fn registration_view(r: Registration) -> (Seq<char>, Seq<Seq<char>>) {
    (r.id@, settings::views(r.css@))
}

/// The registrations that the settings ask for: with the extension off, none, so the
/// next page gets no CSS; else one per feature that is on and has CSS, and the marker
/// `dt-enabled` that tells the content script, synchronously, that the extension is on.
pub open spec fn planned_registrations(enabled: bool, on: Seq<bool>) -> Seq<(Seq<char>, Seq<Seq<char>>)> {
    if !enabled {
        Seq::empty()
    } else {
        feature_registrations(on, settings::feature_ids().len() as int).push(
            (settings::SCRIPT_ID_PREFIX@ + "enabled"@, seq![settings::ENABLED_CSS@]),
        )
    }
}

/// Is the feature with this id on, by the table and the flags?
pub open spec fn flag_of(on: Seq<bool>, id: Seq<char>) -> bool {
    match settings::position_from(settings::feature_ids(), id, 0) {
        Some(i) => i < on.len() && on[i],
        None => false,
    }
}

/// The registrations and the header rules for the settings. `on` holds the flags of the
/// features, in the order of the table; a feature without a flag is off.
pub fn sync_plan(enabled: bool, on: &Vec<bool>) -> (plan: SyncPlan)
    ensures
        plan.registrations@.map_values(|r: Registration| registration_view(r))
            == planned_registrations(enabled, on@),
        settings::views(plan.enable@) == rulesets_for(
            enabled && flag_of(on@, settings::PLAYER_MODAL@),
            enabled && flag_of(on@, settings::COMMENTS@),
        ).0,
        settings::views(plan.disable@) == rulesets_for(
            enabled && flag_of(on@, settings::PLAYER_MODAL@),
            enabled && flag_of(on@, settings::COMMENTS@),
        ).1,
{
    if !enabled {
        let (enable, disable) = ruleset_split(false, false);
        let registrations: Vec<Registration> = Vec::new();
        proof {
            assert(registrations@.map_values(|r: Registration| registration_view(r)) =~= Seq::<
                (Seq<char>, Seq<Seq<char>>),
            >::empty());
        }
        return SyncPlan { registrations, enable, disable };
    }
    let table = settings::features();
    let mut registrations: Vec<Registration> = Vec::new();
    let mut i: usize = 0;
    while i < table.len()
        invariant
            settings::features_table_ok(table@),
            i <= table@.len(),
            registrations@.map_values(|r: Registration| registration_view(r))
                == feature_registrations(on@, i as int),
        decreases table@.len() - i,
    {
        if i < on.len() && on[i] && table[i].css.len() > 0 {
            let id = settings::script_id(table[i].id);
            let css = copy_files(&table[i].css);
            let ghost before = registrations@;
            registrations.push(Registration { id, css });
            proof {
                assert(registrations@.map_values(|r: Registration| registration_view(r)) =~= before.map_values(
                    |r: Registration| registration_view(r),
                ).push(registration_view(registrations@.last())));
            }
        } else {
            proof {
                assert(settings::views(table@[i as int].css@).len() == table@[i as int].css@.len());
            }
        }
        i += 1;
    }
    let mut marker_css: Vec<&'static str> = Vec::new();
    marker_css.push(settings::ENABLED_CSS);
    let ghost before = registrations@;
    registrations.push(Registration { id: settings::script_id("enabled"), css: marker_css });
    proof {
        assert(settings::views(marker_css@) =~= seq![settings::ENABLED_CSS@]);
        assert(registrations@.map_values(|r: Registration| registration_view(r)) =~= before.map_values(
            |r: Registration| registration_view(r),
        ).push(registration_view(registrations@.last())));
    }
    let (enable, disable) = ruleset_split(
        flag_for(on, settings::PLAYER_MODAL),
        flag_for(on, settings::COMMENTS),
    );
    SyncPlan { registrations, enable, disable }
}

/// Is the feature with this id on? An id that is not in the table is off.
pub fn flag_for(on: &Vec<bool>, id: &str) -> (r: bool)
    ensures
        r == flag_of(on@, id@),
{
    let table = settings::features();
    let wanted = chars::chars_of(id);
    let mut k: usize = 0;
    while k < table.len()
        invariant
            settings::features_table_ok(table@),
            k <= table@.len(),
            wanted@ == id@,
            settings::position_from(settings::feature_ids(), id@, 0) == settings::position_from(
                settings::feature_ids(),
                id@,
                k as nat,
            ),
        decreases table@.len() - k,
    {
        if chars::same_chars(chars::chars_of(table[k].id).as_slice(), wanted.as_slice()) {
            proof {
                assert(settings::position_from(settings::feature_ids(), id@, k as nat) == Some(
                    k as int,
                ));
            }
            return k < on.len() && on[k];
        }
        k += 1;
    }
    false
}

fn copy_files(files: &Vec<&'static str>) -> (r: Vec<&'static str>)
    ensures
        r@ == files@,
{
    let mut r: Vec<&'static str> = Vec::new();
    let mut i: usize = 0;
    while i < files.len()
        invariant
            i <= files@.len(),
            r@ == files@.take(i as int),
        decreases files@.len() - i,
    {
        r.push(files[i]);
        proof {
            assert(r@ =~= files@.take(i + 1));
        }
        i += 1;
    }
    proof {
        assert(files@.take(files@.len() as int) =~= files@);
    }
    r
}

/// The registrations of this extension among all of them, in their order: no other
/// extension is touched.
pub open spec fn own_ids(ids: Seq<String>) -> Seq<String>
    decreases ids.len(),
{
    if ids.len() == 0 {
        ids
    } else {
        let rest = own_ids(ids.drop_last());
        if chars::has_prefix(ids.last()@, settings::SCRIPT_ID_PREFIX@) {
            rest.push(ids.last())
        } else {
            rest
        }
    }
}

/// The ids of the registrations of this extension.
pub fn ours(ids: &Vec<String>) -> (r: Vec<String>)
    ensures
        r@ == own_ids(ids@),
{
    let prefix = chars::chars_of(settings::SCRIPT_ID_PREFIX);
    let mut r: Vec<String> = Vec::new();
    let mut i: usize = 0;
    while i < ids.len()
        invariant
            i <= ids@.len(),
            prefix@ == settings::SCRIPT_ID_PREFIX@,
            r@ == own_ids(ids@.take(i as int)),
        decreases ids@.len() - i,
    {
        proof {
            assert(ids@.take(i + 1).drop_last() =~= ids@.take(i as int));
        }
        if chars::starts_with(chars::chars_of(ids[i].as_str()).as_slice(), prefix.as_slice()) {
            r.push(ids[i].clone());
        }
        i += 1;
    }
    proof {
        assert(ids@.take(ids@.len() as int) =~= ids@);
    }
    r
}

/// The CSS of the features among the first `n` that are on, in the order of the table.
pub open spec fn css_of_features(on: Seq<bool>, n: int) -> Seq<Seq<char>>
    decreases n,
{
    if n <= 0 {
        Seq::empty()
    } else if n - 1 < on.len() && on[n - 1] {
        css_of_features(on, n - 1) + settings::feature_css(n - 1)
    } else {
        css_of_features(on, n - 1)
    }
}

/// The CSS that a tab gets at once when the master switch went on while it was open:
/// the marker, then the CSS of every feature that is on.
pub fn enable_now_files(on: &Vec<bool>) -> (r: Vec<&'static str>)
    ensures
        settings::views(r@) == seq![settings::ENABLED_CSS@] + css_of_features(
            on@,
            settings::feature_ids().len() as int,
        ),
{
    let table = settings::features();
    let mut files: Vec<&'static str> = Vec::new();
    files.push(settings::ENABLED_CSS);
    let mut i: usize = 0;
    while i < table.len()
        invariant
            settings::features_table_ok(table@),
            i <= table@.len(),
            settings::views(files@) == seq![settings::ENABLED_CSS@] + css_of_features(on@, i as int),
        decreases table@.len() - i,
    {
        if i < on.len() && on[i] {
            let css = &table[i].css;
            let ghost before = files@;
            let mut j: usize = 0;
            while j < css.len()
                invariant
                    j <= css@.len(),
                    files@ == before + css@.take(j as int),
                decreases css@.len() - j,
            {
                files.push(css[j]);
                proof {
                    assert(files@ =~= before + css@.take(j + 1));
                }
                j += 1;
            }
            proof {
                assert(css@.take(css@.len() as int) =~= css@);
                assert(settings::views(before + css@) =~= settings::views(before) + settings::views(css@));
            }
        }
        i += 1;
    }
    files
}

/// The key of a request for comments: the `partId`, or without one the work title and
/// the episode. A request without a work title (blank) has none and fails.
pub open spec fn request_key(part_id: Seq<char>, work_title: Seq<char>, episode_label: Option<Seq<char>>) -> Option<Seq<char>> {
    if chars::trimmed(work_title).len() == 0 {
        None
    } else if part_id.len() == 0 {
        Some(work_title + seq!['|'] + match episode_label {
            Some(l) => l,
            None => Seq::empty(),
        })
    } else {
        Some(part_id)
    }
}

/// The key of the map for a request for comments; `None` for a request without a work
/// title.
pub fn comment_request_key(part_id: &str, work_title: &str, episode_label: Option<&str>) -> (r: Option<String>)
    ensures
        (match r {
            Some(k) => Some(k@),
            None => None,
        }) == request_key(
            part_id@,
            work_title@,
            match episode_label {
                Some(l) => Some(l@),
                None => None,
            },
        ),
{
    let title = chars::chars_of(work_title);
    if chars::trim(title.as_slice()).len() == 0 {
        return None;
    }
    let part = chars::chars_of(part_id);
    if part.len() > 0 {
        return Some(chars::string_of(part.as_slice()));
    }
    let mut bar: Vec<char> = Vec::new();
    bar.push('|');
    let label = match episode_label {
        Some(l) => chars::chars_of(l),
        None => Vec::new(),
    };
    let front = chars::concat(title.as_slice(), bar.as_slice());
    let key = chars::concat(front.as_slice(), label.as_slice());
    proof {
        assert(bar@ =~= seq!['|']);
    }
    Some(chars::string_of(key.as_slice()))
}

/// The search words, in the order to try them: with a known episode the work title and
/// the episode first (one request gives 100 items, so the work title alone can lose the
/// old episodes), then the work title alone.
pub open spec fn queries_for(query: Seq<char>, episode_label: Option<Seq<char>>) -> Seq<Seq<char>> {
    match episode_label {
        Some(l) => if chars::trimmed(l).len() > 0 {
            seq![query + seq![' '] + chars::trimmed(l), query]
        } else {
            seq![query]
        },
        None => seq![query],
    }
}

/// The search words for a sanitized work title and an episode label.
pub fn search_queries(query: &str, episode_label: Option<&str>) -> (r: Vec<String>)
    ensures
        r@.map_values(|q: String| q@) == queries_for(
            query@,
            match episode_label {
                Some(l) => Some(l@),
                None => None,
            },
        ),
{
    let q = chars::chars_of(query);
    let mut r: Vec<String> = Vec::new();
    match episode_label {
        Some(l) => {
            let label = chars::trim(chars::chars_of(l).as_slice());
            if label.len() > 0 {
                let mut space: Vec<char> = Vec::new();
                space.push(' ');
                let front = chars::concat(q.as_slice(), space.as_slice());
                let both = chars::concat(front.as_slice(), label.as_slice());
                proof {
                    assert(space@ =~= seq![' ']);
                }
                r.push(chars::string_of(both.as_slice()));
            }
        },
        None => {},
    }
    r.push(chars::string_of(q.as_slice()));
    proof {
        assert(r@.map_values(|q: String| q@) =~= queries_for(
            query@,
            match episode_label {
                Some(l) => Some(l@),
                None => None,
            },
        ));
    }
    r
}

/// What a message to the service worker asks for.
#[derive(PartialEq, Eq, Clone, Copy, Debug, Structural)]
pub enum Request {
    Comments,
    EnableNow,
    /// Not for this extension: another listener answers.
    Other,
}

/// The request of a message by its `type`.
pub fn request_of(kind: Option<&str>) -> (r: Request)
    ensures
        r == match kind {
            Some(k) => if k@ == COMMENTS_MESSAGE@ {
                Request::Comments
            } else if k@ == ENABLE_NOW_MESSAGE@ {
                Request::EnableNow
            } else {
                Request::Other
            },
            None => Request::Other,
        },
{
    match kind {
        Some(k) => {
            let text = chars::chars_of(k);
            if chars::same_chars(text.as_slice(), chars::chars_of(COMMENTS_MESSAGE).as_slice()) {
                Request::Comments
            } else if chars::same_chars(text.as_slice(), chars::chars_of(ENABLE_NOW_MESSAGE).as_slice()) {
                Request::EnableNow
            } else {
                Request::Other
            }
        },
        None => Request::Other,
    }
}

} // verus!
