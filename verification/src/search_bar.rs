//! The search bar's decisions: what each event of the bar leads to (the
//! delayed search while typing, the signals it sends, what it shows), as a
//! step from state and event to the next state and the actions to take.
use vstd::prelude::*;

use crate::search::{SearchProp, next_prop, previous_prop};

verus! {

/// What the bar keeps between events: the property searched by and
/// whether a delayed search is waiting.
#[derive(Clone, Copy, Debug, PartialEq, Eq, Structural)]
pub struct SearchBarState {
    pub prop: SearchProp,
    pub timer_pending: bool,
}

/// An event of the search bar.
#[derive(Clone, Copy, Debug, PartialEq, Eq, Structural)]
pub enum SearchBarEvent {
    /// The bar was shown (`true`) or hidden.
    EnabledChanged(bool),
    /// A search started (`true`) or ended.
    SearchingChanged(bool),
    /// The property became the one given; the flag tells whether the text is empty.
    PropChanged(SearchProp, bool),
    /// The exact setting changed; the flag tells whether the text is empty.
    ExactChanged(bool),
    /// The property tag was clicked, with shift held (`true`) or not.
    TagClicked(bool),
    /// The text changed; the flag tells whether it is now empty.
    TextChanged(bool),
    /// The delay of a search while typing ran out.
    TimerFired,
    /// Enter was pressed; the flag tells whether the text is empty.
    Activated(bool),
}

/// An action the bar takes.
#[derive(Clone, Copy, Debug, PartialEq, Eq, Structural)]
pub enum SearchBarAction {
    /// Show (`true`) or hide the bar.
    Reveal(bool),
    /// Focus the text without selecting it.
    FocusText,
    /// Empty the text.
    ClearText,
    /// Show the spinner in place of the search icon.
    ShowSpinner,
    /// Show the search icon.
    ShowFindIcon,
    /// Show the property's short name in the tag.
    SetPropTag(SearchProp),
    /// Make the given property the one searched by.
    SetProp(SearchProp),
    /// Show (`true`) or hide the clear icon.
    ShowClearIcon(bool),
    /// Drop the waiting delayed search.
    CancelTimer,
    /// Start the delay of a search.
    StartTimer,
    /// Clear the AUR error shown.
    ClearAurStatus,
    /// Send the "changed" signal.
    EmitChanged,
    /// Send the "aur-search" signal.
    EmitAurSearch,
}

/// The next state and the actions, in order, of an event.
pub open spec fn search_bar_step_spec(st: SearchBarState, ev: SearchBarEvent) -> (
    SearchBarState,
    Seq<SearchBarAction>,
) {
    match ev {
        SearchBarEvent::EnabledChanged(on) => (
            st,
            if on {
                seq![SearchBarAction::Reveal(true), SearchBarAction::FocusText]
            } else {
                seq![SearchBarAction::Reveal(false), SearchBarAction::ClearText]
            },
        ),
        SearchBarEvent::SearchingChanged(on) => (
            st,
            if on {
                seq![SearchBarAction::ShowSpinner]
            } else {
                seq![SearchBarAction::ShowFindIcon]
            },
        ),
        SearchBarEvent::PropChanged(p, empty) => (
            SearchBarState { prop: p, ..st },
            if empty {
                seq![SearchBarAction::SetPropTag(p)]
            } else {
                seq![SearchBarAction::SetPropTag(p), SearchBarAction::EmitChanged]
            },
        ),
        SearchBarEvent::ExactChanged(empty) => (
            st,
            if empty {
                seq![]
            } else {
                seq![SearchBarAction::EmitChanged]
            },
        ),
        SearchBarEvent::TagClicked(shift) => (
            st,
            if shift {
                seq![SearchBarAction::SetProp(previous_prop(st.prop))]
            } else {
                seq![SearchBarAction::SetProp(next_prop(st.prop))]
            },
        ),
        SearchBarEvent::TextChanged(empty) => {
            let cancel: Seq<SearchBarAction> = if st.timer_pending {
                seq![SearchBarAction::CancelTimer]
            } else {
                seq![]
            };
            let head = seq![SearchBarAction::ShowClearIcon(!empty)] + cancel;
            if empty {
                (
                    SearchBarState { timer_pending: false, ..st },
                    head + seq![
                        SearchBarAction::ClearAurStatus,
                        SearchBarAction::EmitChanged,
                        SearchBarAction::EmitAurSearch,
                    ],
                )
            } else {
                (SearchBarState { timer_pending: true, ..st }, head + seq![SearchBarAction::StartTimer])
            }
        },
        SearchBarEvent::TimerFired => (
            SearchBarState { timer_pending: false, ..st },
            seq![SearchBarAction::EmitChanged],
        ),
        SearchBarEvent::Activated(empty) => (
            st,
            if empty {
                seq![]
            } else {
                seq![SearchBarAction::EmitAurSearch]
            },
        ),
    }
}

/// Typing waits before searching: a change to a nonempty text drops any
/// waiting search and starts a new delay, and sends no signal; when the
/// delay runs out "changed" is sent once and nothing waits any more;
/// emptying the text drops the waiting search and sends "changed" and
/// "aur-search" at once. Enter sends "aur-search" for a nonempty text
/// only. A new property is kept and shown, and a click on the tag asks for
/// the next property (the previous one with shift).
pub proof fn law_search_bar(st: SearchBarState, p: SearchProp, empty: bool, shift: bool)
    ensures
        ({
            let (s1, a1) = search_bar_step_spec(st, SearchBarEvent::TextChanged(false));
            &&& s1.timer_pending
            &&& s1.prop == st.prop
            &&& a1.last() == SearchBarAction::StartTimer
            &&& !a1.contains(SearchBarAction::EmitChanged)
            &&& !a1.contains(SearchBarAction::EmitAurSearch)
            &&& (st.timer_pending <==> a1.contains(SearchBarAction::CancelTimer))
        }),
        ({
            let (s2, a2) = search_bar_step_spec(st, SearchBarEvent::TimerFired);
            &&& !s2.timer_pending
            &&& a2 == seq![SearchBarAction::EmitChanged]
        }),
        ({
            let (s3, a3) = search_bar_step_spec(st, SearchBarEvent::TextChanged(true));
            &&& !s3.timer_pending
            &&& a3.contains(SearchBarAction::EmitChanged)
            &&& a3.contains(SearchBarAction::EmitAurSearch)
            &&& !a3.contains(SearchBarAction::StartTimer)
            &&& (st.timer_pending <==> a3.contains(SearchBarAction::CancelTimer))
        }),
        search_bar_step_spec(st, SearchBarEvent::Activated(empty)).1.contains(
            SearchBarAction::EmitAurSearch,
        ) == !empty,
        search_bar_step_spec(st, SearchBarEvent::PropChanged(p, empty)).0.prop == p,
        search_bar_step_spec(st, SearchBarEvent::PropChanged(p, empty)).1.contains(
            SearchBarAction::SetPropTag(p),
        ),
        !shift ==> search_bar_step_spec(st, SearchBarEvent::TagClicked(shift)).1 == seq![
            SearchBarAction::SetProp(next_prop(st.prop)),
        ],
        shift ==> search_bar_step_spec(st, SearchBarEvent::TagClicked(shift)).1 == seq![
            SearchBarAction::SetProp(previous_prop(st.prop)),
        ],
{
    let (s1, a1) = search_bar_step_spec(st, SearchBarEvent::TextChanged(false));
    assert(a1.last() == SearchBarAction::StartTimer);
    if a1.contains(SearchBarAction::EmitChanged) {
        let i = choose|i: int| 0 <= i < a1.len() && a1[i] == SearchBarAction::EmitChanged;
    }
    if a1.contains(SearchBarAction::EmitAurSearch) {
        let i = choose|i: int| 0 <= i < a1.len() && a1[i] == SearchBarAction::EmitAurSearch;
    }
    if st.timer_pending {
        assert(a1[1] == SearchBarAction::CancelTimer);
    } else if a1.contains(SearchBarAction::CancelTimer) {
        let i = choose|i: int| 0 <= i < a1.len() && a1[i] == SearchBarAction::CancelTimer;
    }
    let (s3, a3) = search_bar_step_spec(st, SearchBarEvent::TextChanged(true));
    assert(a3[a3.len() - 2] == SearchBarAction::EmitChanged);
    assert(a3[a3.len() - 1] == SearchBarAction::EmitAurSearch);
    if a3.contains(SearchBarAction::StartTimer) {
        let i = choose|i: int| 0 <= i < a3.len() && a3[i] == SearchBarAction::StartTimer;
    }
    if st.timer_pending {
        assert(a3[1] == SearchBarAction::CancelTimer);
    } else if a3.contains(SearchBarAction::CancelTimer) {
        let i = choose|i: int| 0 <= i < a3.len() && a3[i] == SearchBarAction::CancelTimer;
    }
    let a4 = search_bar_step_spec(st, SearchBarEvent::Activated(empty)).1;
    if !empty {
        assert(a4[0] == SearchBarAction::EmitAurSearch);
    }
    let a5 = search_bar_step_spec(st, SearchBarEvent::PropChanged(p, empty)).1;
    assert(a5[0] == SearchBarAction::SetPropTag(p));
}

/// The bar as it starts: searching by `prop`, no delayed search waiting.
pub fn search_bar_start(prop: SearchProp) -> (r: SearchBarState)
    ensures
        r.prop == prop,
        !r.timer_pending,
{
    SearchBarState { prop, timer_pending: false }
}

/// What the bar does on an event, and the state it is in afterwards.
pub fn search_bar_step(st: SearchBarState, ev: SearchBarEvent) -> (r: (
    SearchBarState,
    Vec<SearchBarAction>,
))
    ensures
        r.0 == search_bar_step_spec(st, ev).0,
        r.1@ == search_bar_step_spec(st, ev).1,
{
    let mut acts: Vec<SearchBarAction> = Vec::new();
    let mut next = st;
    match ev {
        SearchBarEvent::EnabledChanged(on) => {
            acts.push(SearchBarAction::Reveal(on));
            if on {
                acts.push(SearchBarAction::FocusText);
            } else {
                acts.push(SearchBarAction::ClearText);
            }
        },
        SearchBarEvent::SearchingChanged(on) => {
            if on {
                acts.push(SearchBarAction::ShowSpinner);
            } else {
                acts.push(SearchBarAction::ShowFindIcon);
            }
        },
        SearchBarEvent::PropChanged(p, empty) => {
            next = SearchBarState { prop: p, timer_pending: st.timer_pending };
            acts.push(SearchBarAction::SetPropTag(p));
            if !empty {
                acts.push(SearchBarAction::EmitChanged);
            }
        },
        SearchBarEvent::ExactChanged(empty) => {
            if !empty {
                acts.push(SearchBarAction::EmitChanged);
            }
        },
        SearchBarEvent::TagClicked(shift) => {
            if shift {
                acts.push(SearchBarAction::SetProp(st.prop.previous()));
            } else {
                acts.push(SearchBarAction::SetProp(st.prop.next()));
            }
        },
        SearchBarEvent::TextChanged(empty) => {
            acts.push(SearchBarAction::ShowClearIcon(!empty));
            if st.timer_pending {
                acts.push(SearchBarAction::CancelTimer);
            }
            if empty {
                acts.push(SearchBarAction::ClearAurStatus);
                acts.push(SearchBarAction::EmitChanged);
                acts.push(SearchBarAction::EmitAurSearch);
                next = SearchBarState { prop: st.prop, timer_pending: false };
            } else {
                acts.push(SearchBarAction::StartTimer);
                next = SearchBarState { prop: st.prop, timer_pending: true };
            }
        },
        SearchBarEvent::TimerFired => {
            acts.push(SearchBarAction::EmitChanged);
            next = SearchBarState { prop: st.prop, timer_pending: false };
        },
        SearchBarEvent::Activated(empty) => {
            if !empty {
                acts.push(SearchBarAction::EmitAurSearch);
            }
        },
    }
    proof {
        let want = search_bar_step_spec(st, ev).1;
        assert(acts@ =~= want);
    }
    (next, acts)
}

} // verus!
