use pacview::backup::backup_window_label;
use pacview::flags::{PkgFlags, PkgValidation};
use pacview::groups::{contains_text, groups_window_matches, window_installed_matches, GroupEntry, GroupsSearchMode};
use pacview::history::HistoryList;
use pacview::log::LogLine;
use pacview::pkg_data::PkgData;
use pacview::pkg_object::PkgObject;
use pacview::search::{compare_packages, SearchProp, SortProp};
use pacview::search_bar::{search_bar_start, search_bar_step, SearchBarAction, SearchBarEvent};

fn pkg_with(name: &str, size: i64, validation: PkgValidation) -> PkgObject {
    PkgObject::new(PkgData {
        flags: PkgFlags::explicit(),
        is_installed: true,
        base: None,
        name: name.to_string(),
        version: "1".to_string(),
        description: None,
        popularity: None,
        out_of_date: None,
        url: None,
        licenses: Vec::new(),
        repository: "core".to_string(),
        groups: vec!["g".to_string()],
        depends: Vec::new(),
        optdepends: Vec::new(),
        makedepends: Vec::new(),
        provides: Vec::new(),
        conflicts: Vec::new(),
        replaces: Vec::new(),
        architecture: None,
        packager: None,
        build_date: 0,
        install_date: None,
        download_size: 0,
        install_size: size,
        has_script: None,
        validation,
    })
}

fn pkg(name: &str) -> PkgObject {
    pkg_with(name, 0, PkgValidation::default())
}

fn selected_name(l: &HistoryList) -> Option<String> {
    l.selected_item().map(|p| p.name().clone())
}

#[test]
fn log_line_built_from_parts_parses_back() {
    let line = format!("[{}T{}+{}] [{}] {}", "2024-05-06", "07:08:09", "0200", "PACMAN", "Running 'pacman -Syu' ] [x]");
    let l = LogLine::parse(&line).unwrap();
    assert_eq!(l.date, "2024-05-06");
    assert_eq!(l.time, "07:08:09");
    assert_eq!(l.category, "PACMAN");
    assert_eq!(l.message, "Running 'pacman -Syu' ] [x]");
}

#[test]
fn window_reads_log_lines_by_its_pattern() {
    let l = LogLine::parse_window("[2024-01-02T10:11:12+0100] [ALPM] upgraded foo (1.0-1 -> 1.1-1)  ").unwrap();
    assert_eq!(l.date, "2024-01-02");
    assert_eq!(l.time, "10:11:12");
    assert_eq!(l.category, "ALPM");
    assert_eq!(l.message, "upgraded foo (1.0-1 -> 1.1-1)");
    let m = LogLine::parse_window("junk [2024-01-02T10:11:12+0100] [ALPM-SCRIPTLET] ] done").unwrap();
    assert_eq!(m.date, "2024-01-02");
    assert_eq!(m.category, "ALPM-SCRIPTLET");
    assert_eq!(m.message, "] done");
    assert!(LogLine::parse_window("[2024-01-02T10:11:12+0100] [ALPM] ").is_none());
    assert!(LogLine::parse_window("[2024-01-02 10:11:12] [ALPM] x").is_none());
    assert!(LogLine::parse_window("[T10+0100] [ALPM] x").is_none());
}

#[test]
fn swapping_packages_reverses_the_order() {
    let a = pkg_with("alpha", 10, PkgValidation::default());
    let b = pkg_with("beta", 20, PkgValidation::default());
    for prop in [SortProp::Name, SortProp::Repository, SortProp::Status, SortProp::InstallDate, SortProp::InstalledSize, SortProp::Groups] {
        for asc in [true, false] {
            assert_eq!(compare_packages(&b, &a, prop, asc), compare_packages(&a, &b, prop, asc).reverse());
        }
    }
    assert_eq!(compare_packages(&b, &a, SortProp::InstalledSize, true), pacview::text::Order::Greater);
}

#[test]
fn following_a_link_moves_only_to_another_package() {
    let mut l = HistoryList::new();
    l.init(Some(pkg("a")));
    assert!(!l.open_link(None));
    assert_eq!((l.len(), l.selected()), (1, 0));
    assert!(!l.open_link(Some(pkg("a"))));
    assert_eq!((l.len(), l.selected()), (1, 0));
    assert!(l.open_link(Some(pkg("b"))));
    assert_eq!((l.len(), l.selected()), (2, 1));
    assert_eq!(selected_name(&l).as_deref(), Some("b"));
    assert!(l.open_link(Some(pkg("a"))));
    assert_eq!((l.len(), l.selected()), (2, 0));
    assert!(l.open_link(Some(pkg("c"))));
    assert_eq!((l.len(), l.selected()), (2, 1));
    assert_eq!(selected_name(&l).as_deref(), Some("c"));
    let mut empty = HistoryList::new();
    assert!(empty.open_link(Some(pkg("z"))));
    assert_eq!((empty.len(), empty.selected()), (1, 0));
}

#[test]
fn hashes_shown_only_for_a_validated_package() {
    let mut l = HistoryList::new();
    assert!(!l.can_show_hashes());
    l.init(Some(pkg_with("a", 0, PkgValidation::default())));
    assert!(!l.can_show_hashes());
    l.init(Some(pkg_with("a", 0, PkgValidation::sha256sum())));
    assert!(l.can_show_hashes());
}

#[test]
fn backup_window_footer() {
    assert_eq!(backup_window_label(1, 1), "1 files in 1 package");
    assert_eq!(backup_window_label(12, 3), "12 files in 3 packages");
    assert_eq!(backup_window_label(0, 0), "0 files in 0 packages");
}

#[test]
fn groups_window_search_and_installed_filter() {
    let e = |p: &str, st: &str, g: &str| GroupEntry {
        package: p.to_string(),
        status: st.to_string(),
        groups: g.to_string(),
    };
    let row = e("Xorg-Server", "explicit", "XORG");
    assert!(groups_window_matches("", GroupsSearchMode::Packages, &row));
    assert!(groups_window_matches("SERVER", GroupsSearchMode::Packages, &row));
    assert!(!groups_window_matches("server", GroupsSearchMode::Groups, &row));
    assert!(groups_window_matches("xorg", GroupsSearchMode::Groups, &row));
    assert!(groups_window_matches("org", GroupsSearchMode::All, &row));
    assert!(!groups_window_matches(" xorg", GroupsSearchMode::All, &row));
    assert!(groups_window_matches("ÉTÉ", GroupsSearchMode::Packages, &e("été", "", "g")));
    assert!(window_installed_matches(false, &e("a", "not installed", "g")));
    assert!(!window_installed_matches(true, &e("a", "not installed", "g")));
    assert!(window_installed_matches(true, &e("a", "explicit", "g")));
    assert!(contains_text("abcabd", "abd"));
    assert!(!contains_text("ab", "abc"));
    assert!(contains_text("x", ""));
}

#[test]
fn search_bar_typing_waits_then_searches() {
    let st = search_bar_start(SearchProp::Name);
    let (st, acts) = search_bar_step(st, SearchBarEvent::TextChanged(false));
    assert!(st.timer_pending);
    assert_eq!(acts, vec![SearchBarAction::ShowClearIcon(true), SearchBarAction::StartTimer]);
    let (st2, acts) = search_bar_step(st, SearchBarEvent::TextChanged(false));
    assert!(st2.timer_pending);
    assert_eq!(
        acts,
        vec![SearchBarAction::ShowClearIcon(true), SearchBarAction::CancelTimer, SearchBarAction::StartTimer]
    );
    let (st3, acts) = search_bar_step(st2, SearchBarEvent::TimerFired);
    assert!(!st3.timer_pending);
    assert_eq!(acts, vec![SearchBarAction::EmitChanged]);
    let (st4, acts) = search_bar_step(st2, SearchBarEvent::TextChanged(true));
    assert!(!st4.timer_pending);
    assert_eq!(
        acts,
        vec![
            SearchBarAction::ShowClearIcon(false),
            SearchBarAction::CancelTimer,
            SearchBarAction::ClearAurStatus,
            SearchBarAction::EmitChanged,
            SearchBarAction::EmitAurSearch,
        ]
    );
}

#[test]
fn search_bar_other_events() {
    let st = search_bar_start(SearchProp::Name);
    assert_eq!(
        search_bar_step(st, SearchBarEvent::EnabledChanged(true)).1,
        vec![SearchBarAction::Reveal(true), SearchBarAction::FocusText]
    );
    assert_eq!(
        search_bar_step(st, SearchBarEvent::EnabledChanged(false)).1,
        vec![SearchBarAction::Reveal(false), SearchBarAction::ClearText]
    );
    assert_eq!(search_bar_step(st, SearchBarEvent::SearchingChanged(true)).1, vec![SearchBarAction::ShowSpinner]);
    assert_eq!(search_bar_step(st, SearchBarEvent::SearchingChanged(false)).1, vec![SearchBarAction::ShowFindIcon]);
    let (st2, acts) = search_bar_step(st, SearchBarEvent::PropChanged(SearchProp::Files, false));
    assert_eq!(st2.prop, SearchProp::Files);
    assert_eq!(acts, vec![SearchBarAction::SetPropTag(SearchProp::Files), SearchBarAction::EmitChanged]);
    assert_eq!(
        search_bar_step(st, SearchBarEvent::PropChanged(SearchProp::Deps, true)).1,
        vec![SearchBarAction::SetPropTag(SearchProp::Deps)]
    );
    assert!(search_bar_step(st, SearchBarEvent::ExactChanged(true)).1.is_empty());
    assert_eq!(search_bar_step(st, SearchBarEvent::ExactChanged(false)).1, vec![SearchBarAction::EmitChanged]);
    assert_eq!(
        search_bar_step(st2, SearchBarEvent::TagClicked(false)).1,
        vec![SearchBarAction::SetProp(SearchProp::Name)]
    );
    assert_eq!(
        search_bar_step(st2, SearchBarEvent::TagClicked(true)).1,
        vec![SearchBarAction::SetProp(SearchProp::Provides)]
    );
    assert!(search_bar_step(st, SearchBarEvent::Activated(true)).1.is_empty());
    assert_eq!(search_bar_step(st, SearchBarEvent::Activated(false)).1, vec![SearchBarAction::EmitAurSearch]);
}
