//! What the sidebar's repository and status items, and the filter rows,
//! show for each state: a spinner, a count badge, an icon, an error.
use vstd::prelude::*;

use crate::text::{push_str, decimal, decimal_string};

verus! {

//------------------------------------------------------------------------------
// STRUCT: Indicator
//------------------------------------------------------------------------------
/// The suffix widgets of a sidebar item or filter row. A `None` label
/// leaves the count label's text as it was; a `Some` error shows the error
/// button with that text.
#[derive(Debug)]
pub struct Indicator {
    pub spinner_visible: bool,
    pub count_visible: bool,
    pub count_label: Option<String>,
    pub error: Option<String>,
}

/// The view of an optional string.
pub open spec fn opt_text(o: Option<String>) -> Option<Seq<char>> {
    match o {
        Some(s) => Some(s@),
        None => None,
    }
}

//------------------------------------------------------------------------------
// ENUM: RepoItemState
//------------------------------------------------------------------------------
/// The state of a repository item: idle, searching the AUR, or showing how
/// many AUR results came back.
#[derive(Debug, PartialEq, Eq, Structural)]
pub enum RepoItemState {
    Reset,
    Searching,
    AurResults(u32),
}

impl Default for RepoItemState {
    fn default() -> (r: Self)
        ensures
            r == RepoItemState::Reset,
    {
        RepoItemState::Reset
    }
}

/// What a repository item shows in a state: the spinner while searching,
/// and "+N" for a nonzero number of AUR results.
pub fn repo_indicator(state: &RepoItemState) -> (r: Indicator)
    ensures
        r.spinner_visible == (*state == RepoItemState::Searching),
        r.error.is_none(),
        match *state {
            RepoItemState::AurResults(count) => {
                &&& r.count_visible == (count != 0)
                &&& opt_text(r.count_label) == Some("+"@ + decimal(count as nat))
            },
            _ => !r.count_visible && r.count_label.is_none(),
        },
{
    match state {
        RepoItemState::AurResults(count) => {
            let mut label = String::new();
            push_str(&mut label, "+");
            let digits = decimal_string(*count as u64);
            push_str(&mut label, digits.as_str());
            Indicator {
                spinner_visible: false,
                count_visible: *count != 0,
                count_label: Some(label),
                error: None,
            }
        },
        RepoItemState::Searching => Indicator {
            spinner_visible: true,
            count_visible: false,
            count_label: None,
            error: None,
        },
        RepoItemState::Reset => Indicator {
            spinner_visible: false,
            count_visible: false,
            count_label: None,
            error: None,
        },
    }
}

//------------------------------------------------------------------------------
// ENUM: StatusItemState
//------------------------------------------------------------------------------
/// The state of the updates item of the sidebar: the outcome of an update
/// check (the number of updates and an error, if any), idle, or checking.
#[derive(Debug)]
pub enum StatusItemState {
    Updates(usize, Option<String>),
    Reset,
    Checking,
}

impl Default for StatusItemState {
    fn default() -> (r: Self)
        ensures
            r matches StatusItemState::Updates(0, None),
    {
        StatusItemState::Updates(0, None)
    }
}

/// What the updates item shows: its icon, the spinner, the count badge and
/// the tooltip.
#[derive(Debug)]
pub struct StatusItemDisplay {
    pub icon: String,
    pub indicator: Indicator,
    pub tooltip: Option<String>,
}

/// The icon of the updates item after a check.
pub open spec fn updates_icon(count: nat, has_error: bool) -> Seq<char> {
    if has_error {
        "status-updates-error-symbolic"@
    } else if count == 0 {
        "status-updates-symbolic"@
    } else {
        "status-updates-new-symbolic"@
    }
}

/// What the updates item shows in a state: after a check, an icon that
/// tells an error, no updates or new updates apart, the count when nonzero
/// and the error as tooltip; otherwise the plain icon, with the spinner
/// while checking.
pub fn status_item_display(state: &StatusItemState) -> (r: StatusItemDisplay)
    ensures
        r.indicator.spinner_visible == (*state is Checking),
        r.indicator.error.is_none(),
        match *state {
            StatusItemState::Updates(count, error) => {
                &&& r.icon@ == updates_icon(count as nat, error.is_some())
                &&& r.indicator.count_visible == (count != 0)
                &&& opt_text(r.indicator.count_label) == Some(decimal(count as nat))
                &&& opt_text(r.tooltip) == opt_text(error)
            },
            _ => {
                &&& r.icon@ == "status-updates-symbolic"@
                &&& !r.indicator.count_visible
                &&& r.indicator.count_label.is_none()
                &&& r.tooltip.is_none()
            },
        },
{
    match state {
        StatusItemState::Updates(count, error) => {
            let mut icon = String::new();
            if error.is_some() {
                push_str(&mut icon, "status-updates-error-symbolic");
            } else if *count == 0 {
                push_str(&mut icon, "status-updates-symbolic");
            } else {
                push_str(&mut icon, "status-updates-new-symbolic");
            }
            let tooltip = match error {
                Some(e) => Some(e.clone()),
                None => None,
            };
            StatusItemDisplay {
                icon,
                indicator: Indicator {
                    spinner_visible: false,
                    count_visible: *count != 0,
                    count_label: Some(decimal_string(*count as u64)),
                    error: None,
                },
                tooltip,
            }
        },
        _ => {
            let checking = match state {
                StatusItemState::Checking => true,
                _ => false,
            };
            let mut icon = String::new();
            push_str(&mut icon, "status-updates-symbolic");
            StatusItemDisplay {
                icon,
                indicator: Indicator {
                    spinner_visible: checking,
                    count_visible: false,
                    count_label: None,
                    error: None,
                },
                tooltip: None,
            }
        },
    }
}

//------------------------------------------------------------------------------
// ENUM: Updates
//------------------------------------------------------------------------------
/// The state of the updates filter row: the outcome of a check (an error,
/// if any, and the number of updates) or a check under way.
#[derive(Debug)]
pub enum Updates {
    Output(Option<String>, u32),
    Checking,
}

impl Default for Updates {
    fn default() -> (r: Self)
        ensures
            r matches Updates::Output(None, 0),
    {
        Updates::Output(None, 0)
    }
}

/// What the updates filter row shows: after a check, the count when nonzero
/// and the error button when the update check failed; while checking, the spinner
/// alone.
pub fn filter_row_indicator(status: &Updates) -> (r: Indicator)
    ensures
        match *status {
            Updates::Output(error, count) => {
                &&& !r.spinner_visible
                &&& r.count_visible == (count != 0)
                &&& opt_text(r.count_label) == Some(decimal(count as nat))
                &&& opt_text(r.error) == opt_text(error)
            },
            Updates::Checking => {
                &&& r.spinner_visible
                &&& !r.count_visible
                &&& r.count_label.is_none()
                &&& r.error.is_none()
            },
        },
{
    match status {
        Updates::Output(error, count) => {
            let e = match error {
                Some(e) => Some(e.clone()),
                None => None,
            };
            Indicator {
                spinner_visible: false,
                count_visible: *count != 0,
                count_label: Some(decimal_string(*count as u64)),
                error: e,
            }
        },
        Updates::Checking => Indicator {
            spinner_visible: true,
            count_visible: false,
            count_label: None,
            error: None,
        },
    }
}

//------------------------------------------------------------------------------
// ENUM: SidebarItemState
//------------------------------------------------------------------------------
/// The state of a sidebar item's indicator: the outcome of a check (an
/// error, if any, and a count), idle, or checking.
#[derive(Debug)]
pub enum SidebarItemState {
    Updates(Option<String>, u32),
    Reset,
    Checking,
}

impl Default for SidebarItemState {
    fn default() -> (r: Self)
        ensures
            r matches SidebarItemState::Updates(None, 0),
    {
        SidebarItemState::Updates(None, 0)
    }
}

/// What a sidebar item's indicator shows: after a check, the count when
/// nonzero and the error button on failure; nothing when idle; the spinner
/// alone while checking.
pub fn sidebar_indicator(state: &SidebarItemState) -> (r: Indicator)
    ensures
        r.spinner_visible == (*state is Checking),
        match *state {
            SidebarItemState::Updates(error, count) => {
                &&& r.count_visible == (count != 0)
                &&& opt_text(r.count_label) == Some(decimal(count as nat))
                &&& opt_text(r.error) == opt_text(error)
            },
            _ => {
                &&& !r.count_visible
                &&& r.count_label.is_none()
                &&& r.error.is_none()
            },
        },
{
    match state {
        SidebarItemState::Updates(error, count) => {
            let e = match error {
                Some(e) => Some(e.clone()),
                None => None,
            };
            Indicator {
                spinner_visible: false,
                count_visible: *count != 0,
                count_label: Some(decimal_string(*count as u64)),
                error: e,
            }
        },
        SidebarItemState::Reset => Indicator {
            spinner_visible: false,
            count_visible: false,
            count_label: None,
            error: None,
        },
        SidebarItemState::Checking => Indicator {
            spinner_visible: true,
            count_visible: false,
            count_label: None,
            error: None,
        },
    }
}

} // verus!
