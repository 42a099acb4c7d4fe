use pacview::flags::PkgFlags;
use pacview::history::{position_of_name, HistoryList, PkgHistory};
use pacview::log::{is_package_event, log_markdown, log_matches, strip_color_codes, LogLine, LogSearchMode};
use pacview::pkg_data::PkgData;
use pacview::pkg_object::PkgObject;
use pacview::flags::PkgValidation;

fn pkg(name: &str) -> PkgObject {
    pkg_version(name, "1")
}

fn pkg_version(name: &str, version: &str) -> PkgObject {
    PkgObject::new(PkgData {
        flags: PkgFlags::explicit(),
        is_installed: true,
        base: None,
        name: name.to_string(),
        version: version.to_string(),
        description: None,
        popularity: None,
        out_of_date: None,
        url: None,
        licenses: Vec::new(),
        repository: "core".to_string(),
        groups: Vec::new(),
        depends: Vec::new(),
        optdepends: Vec::new(),
        makedepends: Vec::new(),
        provides: Vec::new(),
        conflicts: Vec::new(),
        replaces: Vec::new(),
        architecture: None,
        packager: None,
        build_date: 0,
        install_date: None,
        download_size: 0,
        install_size: 0,
        has_script: None,
        validation: PkgValidation::default(),
    })
}

fn selected_name(h: &PkgHistory) -> Option<String> {
    h.selected_item().map(|p| p.name().clone())
}

#[test]
fn history_starts_empty() {
    let h = PkgHistory::new();
    assert_eq!(h.len(), 0);
    assert_eq!(h.selected(), None);
    assert!(!h.can_select_previous());
    assert!(!h.can_select_next());
    assert!(PkgHistory::default().selected_item().is_none());
}

#[test]
fn history_steps_back_and_forth() {
    let mut h = PkgHistory::new();
    h.init(Some(pkg("a")));
    h.truncate_and_append(pkg("b"));
    h.truncate_and_append(pkg("c"));
    assert_eq!(h.len(), 3);
    assert_eq!(h.selected(), Some(2));
    assert!(!h.select_next());
    assert!(h.select_previous());
    assert_eq!(selected_name(&h).as_deref(), Some("b"));
    assert!(h.select_next());
    assert_eq!(selected_name(&h).as_deref(), Some("c"));
    assert!(h.select_previous());
    assert!(h.select_previous());
    assert!(!h.select_previous());
    assert_eq!(h.selected(), Some(0));
}

#[test]
fn history_append_drops_what_follows() {
    let mut h = PkgHistory::new();
    h.init(Some(pkg("a")));
    h.truncate_and_append(pkg("b"));
    h.truncate_and_append(pkg("c"));
    h.select_previous();
    h.select_previous();
    h.truncate_and_append(pkg("d"));
    assert_eq!(h.len(), 2);
    assert_eq!(h.selected(), Some(1));
    assert_eq!(selected_name(&h).as_deref(), Some("d"));
    assert!(h.can_select_previous());
    assert!(!h.can_select_next());
}

#[test]
fn history_selects_by_name() {
    let mut h = PkgHistory::new();
    h.init(Some(pkg("a")));
    h.truncate_and_append(pkg("b"));
    assert!(h.set_selected_item(&pkg("a")));
    assert_eq!(h.selected(), Some(0));
    assert!(!h.set_selected_item(&pkg("zzz")));
    assert_eq!(h.selected(), Some(0));
    h.init(None);
    assert_eq!(h.len(), 0);
    assert_eq!(h.selected(), None);
}

#[test]
fn position_of_first_name() {
    let list = vec![pkg("a"), pkg("b"), pkg("a")];
    assert_eq!(position_of_name(&list, &"a".to_string()), Some(0));
    assert_eq!(position_of_name(&list, &"b".to_string()), Some(1));
    assert_eq!(position_of_name(&list, &"c".to_string()), None);
}

#[test]
fn history_list_select_or_append() {
    let mut l = HistoryList::new();
    assert_eq!(l.selected(), u32::MAX);
    assert!(l.selected_item().is_none());
    l.init(Some(pkg("a")));
    l.select_or_append(pkg("b"));
    l.select_or_append(pkg("c"));
    assert_eq!(l.len(), 3);
    assert_eq!(l.selected(), 2);
    l.select_or_append(pkg("a"));
    assert_eq!(l.len(), 3);
    assert_eq!(l.selected(), 0);
    l.select_or_append(pkg("d"));
    assert_eq!(l.len(), 2);
    assert_eq!(l.selected(), 1);
    assert_eq!(l.selected_item().map(|p| p.name().clone()).as_deref(), Some("d"));
}

#[test]
fn history_list_steps_undo_each_other() {
    let mut l = HistoryList::default();
    l.init(Some(pkg("a")));
    l.select_or_append(pkg("b"));
    assert!(l.peek_previous());
    assert!(!l.peek_next());
    l.select_previous();
    assert_eq!(l.selected(), 0);
    assert!(l.peek_next());
    l.select_next();
    assert_eq!(l.selected(), 1);
    l.select_next();
    assert_eq!(l.selected(), 1);
    l.set_selected(7);
    assert_eq!(l.selected(), u32::MAX);
    assert!(l.selected_item().is_none());
    l.set_selected(0);
    assert_eq!(l.selected(), 0);
}

#[test]
fn log_lines_parse() {
    let l = LogLine::parse("[2024-01-02T10:11:12+0100] [ALPM] upgraded foo (1.0-1 -> 1.1-1)").unwrap();
    assert_eq!(l.date, "2024-01-02");
    assert_eq!(l.time, "10:11:12");
    assert_eq!(l.category, "ALPM");
    assert_eq!(l.message, "upgraded foo (1.0-1 -> 1.1-1)");
    assert!(LogLine::parse("no brackets").is_none());
    assert!(LogLine::parse("[2024-01-02 10:11] [ALPM] x").is_none());
    assert!(LogLine::parse("[2024-01-02T10:11+0100]").is_none());
}

#[test]
fn color_codes_are_stripped() {
    assert_eq!(strip_color_codes("\x1b[1;32mok\x1b[0m done\x1b(B"), "ok done");
    assert_eq!(strip_color_codes("plain"), "plain");
    assert_eq!(strip_color_codes("\x1b[12x"), "\x1b[12x");
}

#[test]
fn log_search_modes() {
    assert_eq!(LogSearchMode::default(), LogSearchMode::Messages);
    assert_eq!(LogSearchMode::Messages.next(), LogSearchMode::Packages);
    assert_eq!(LogSearchMode::Messages.previous(), LogSearchMode::Exact);
    assert_eq!(LogSearchMode::Exact.next().previous(), LogSearchMode::Exact);
    assert_eq!(LogSearchMode::Packages.label(), "Packages");
}

#[test]
fn log_message_filter() {
    let msg = "upgraded linux-firmware (1 -> 2)";
    assert!(log_matches("", LogSearchMode::Exact, msg));
    assert!(log_matches("firm", LogSearchMode::Messages, msg));
    assert!(log_matches("linux", LogSearchMode::Packages, msg));
    assert!(!log_matches("linux", LogSearchMode::Exact, msg));
    assert!(log_matches("linux-firmware", LogSearchMode::Exact, msg));
    assert!(!log_matches("linux", LogSearchMode::Packages, "transaction started"));
    assert!(is_package_event("installed foo (1)"));
    assert!(!is_package_event("reinstalled foo (1)"));
}

#[test]
fn log_copy() {
    let l = LogLine::parse("[2024-01-02T10:11:12+0100] [ALPM] removed foo (1)").unwrap();
    assert_eq!(
        log_markdown(&vec![l]),
        "## Log Messages\n|Date|Time|Category|Message|\n|---|---|---|---|\n|2024-01-02|10:11:12|removed foo (1)|\n"
    );
}

#[test]
fn log_is_read_newest_first() {
    let lines = vec![
        "[2024-01-01T10:00:00+0000] [PACMAN] Running 'pacman -Syu'".to_string(),
        "garbage".to_string(),
        "[2024-01-02T11:00:00+0000] [ALPM] \x1b[1minstalled\x1b[0m foo (1)".to_string(),
    ];
    let parsed = pacview::log::parse_log(&lines);
    assert_eq!(parsed.len(), 2);
    assert_eq!(parsed[0].message, "installed foo (1)");
    assert_eq!(parsed[0].date, "2024-01-02");
    assert_eq!(parsed[1].category, "PACMAN");
}

#[test]
fn history_list_finds_the_package_itself() {
    let mut l = HistoryList::new();
    l.init(Some(pkg_version("foo", "1")));
    l.select_or_append(pkg("bar"));
    // Another package of the same name is not the package in the list.
    l.select_or_append(pkg_version("foo", "2"));
    assert_eq!(l.len(), 3);
    assert_eq!(l.selected(), 2);
    assert_eq!(l.selected_item().map(|p| p.version().clone()).as_deref(), Some("2"));
    // The very package found again is selected, the list unchanged.
    l.select_or_append(pkg_version("foo", "1"));
    assert_eq!(l.len(), 3);
    assert_eq!(l.selected(), 0);
    assert!(l.selected_item().unwrap().is_same(&pkg_version("foo", "1")));
    assert!(!pkg_version("foo", "1").is_same(&pkg_version("foo", "2")));
}

#[test]
fn log_size_label_uses_size_text() {
    assert_eq!(pacview::log::log_size_label(200), "Log file size: 200 bytes");
    assert_eq!(pacview::log::log_size_label(204800), "Log file size: 200 KiB");
}
