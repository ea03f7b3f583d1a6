//! The start of the content script: is the extension on, and what runs on this page.

use vstd::prelude::*;

use crate::chars;
use crate::page::PageKind;

verus! {

/// The kill switch. Every CSS file tests this class on `<html>`.
pub const OFF_CLASS: &'static str = "dt-off";

/// What the variable of the marker CSS says, synchronously: it is only there when the
/// extension is on (`0` says off). Empty (the marker is not registered yet) says
/// nothing, and then the storage is asked.
pub open spec fn marker_says(value: Option<Seq<char>>) -> Option<bool> {
    match value {
        Some(v) => {
            let t = chars::trimmed(v);
            if t.len() == 0 {
                None
            } else {
                Some(t != "0"@)
            }
        },
        None => None,
    }
}

/// Is the extension on, by the marker variable (`None` where it could not be read)?
pub fn enabled_marker(value: Option<&str>) -> (r: Option<bool>)
    ensures
        r == marker_says(
            match value {
                Some(v) => Some(v@),
                None => None,
            },
        ),
{
    let v = match value {
        Some(v) => v,
        None => {
            return None;
        },
    };
    let t = chars::trim(chars::chars_of(v).as_slice());
    if t.len() == 0 {
        return None;
    }
    proof {
        reveal_strlit("0");
    }
    Some(!chars::same_chars(t.as_slice(), chars::chars_of("0").as_slice()))
}

/// What starts on a page. The settings of each feature are asked later.
#[derive(Clone, Copy, PartialEq, Eq, Debug, Structural)]
pub struct InstallPlan {
    /// The float player: on a list, a work page and the top page (its cards of "on air
    /// now" have a play link).
    pub player_modal: bool,
    /// The own cards and the infinite scroll: where the list container is.
    pub list: bool,
    /// The own top page.
    pub top: bool,
    /// The hero, the details and the episodes of a work page.
    pub work: bool,
}

/// What starts on a page of this kind, with or without the list container. The container
/// decides the list, not the kind: the CSS tests only the container.
pub fn install_plan(kind: PageKind, has_list: bool) -> (r: InstallPlan)
    ensures
        r == (InstallPlan {
            player_modal: has_list || kind == PageKind::Work || kind == PageKind::Top,
            list: has_list,
            top: kind == PageKind::Top,
            work: kind == PageKind::Work,
        }),
{
    InstallPlan {
        player_modal: has_list || kind == PageKind::Work || kind == PageKind::Top,
        list: has_list,
        top: kind == PageKind::Top,
        work: kind == PageKind::Work,
    }
}

/// The minimum width of a card to write into `--dt-card-min`: nothing for `auto` or an
/// empty value, which leaves the default of the CSS.
pub fn card_min_width(setting: &str) -> (r: Option<String>)
    ensures
        (match r {
            Some(w) => Some(w@),
            None => None,
        }) == (if setting@ == "auto"@ || setting@.len() == 0 {
            None
        } else {
            Some(setting@)
        }),
{
    let s = chars::chars_of(setting);
    proof {
        reveal_strlit("auto");
    }
    if s.len() == 0 || chars::same_chars(s.as_slice(), chars::chars_of("auto").as_slice()) {
        None
    } else {
        Some(chars::string_of(s.as_slice()))
    }
}

} // verus!
