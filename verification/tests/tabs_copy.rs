use pacview::backup::{backup_markdown, backup_tab_markdown, BackupObject, PkgBackup};
use pacview::tabs::{
    file_open_path, file_shown, files_copy, list_page, files_count_display, files_tab_display, font_css,
    package_list_copy, pkgbuild_source, pkgbuild_unavailable, window_title, FontFields, FontStyle,
    FontWeight, PkgbuildSource, TabState,
};

fn strings(v: &[&str]) -> Vec<String> {
    v.iter().map(|s| s.to_string()).collect()
}

fn backup(path: &str, package: &str, modified: bool) -> BackupObject {
    let current = if modified { "x".to_string() } else { "h".to_string() };
    BackupObject::new(
        PkgBackup { path: path.to_string(), hash: "h".to_string() },
        package,
        Some(&current),
    )
}

#[test]
fn folder_filter_and_open_path() {
    assert!(file_shown(true, "/usr/bin/"));
    assert!(!file_shown(false, "/usr/bin/"));
    assert!(file_shown(false, "/usr/bin/ls"));
    assert!(file_shown(false, ""));
    assert_eq!(file_open_path("/mnt/root", "/etc/fstab"), "/mnt/root/etc/fstab");
}

#[test]
fn files_tab_states() {
    let l = files_tab_display(TabState::Loading);
    assert!(!l.search_sensitive && l.loading_visible && !l.remote_visible);
    assert_eq!(l.empty_visible, Some(false));
    let i = files_tab_display(TabState::Installed);
    assert!(i.search_sensitive && !i.loading_visible && i.empty_visible.is_none());
    let r = files_tab_display(TabState::Remote);
    assert!(r.remote_visible && r.close_search);
    assert_eq!(TabState::default(), TabState::Loading);
    assert_eq!(files_count_display(TabState::Installed, 0), ("0".to_string(), true, false));
    assert_eq!(files_count_display(TabState::Remote, 0), ("0".to_string(), false, false));
    assert_eq!(files_count_display(TabState::Installed, 12), ("12".to_string(), false, true));
}

#[test]
fn tab_copies() {
    assert_eq!(
        files_copy("foo", &strings(&["/usr/", "/usr/bin/foo"])),
        "### foo\n|Files|\n|---|\n/usr/\n/usr/bin/foo\n"
    );
    assert_eq!(
        package_list_copy("foo", "Cache Files", &strings(&["/c/foo.zst"])),
        "## foo\n|Cache Files|\n|---|\n/c/foo.zst\n"
    );
    assert_eq!(package_list_copy("foo", "Log Messages", &Vec::new()), "## foo\n|Log Messages|\n|---|\n");
}

#[test]
fn backup_copies() {
    let files = vec![
        backup("/etc/a", "p1", true),
        backup("/etc/b", "p1", false),
        backup("/etc/c", "p2", false),
    ];
    assert_eq!(
        backup_markdown(&files),
        "## Backup Files\n|Filename|Status|\n|---|---|\n|**p1**||\n|/etc/a|modified|\n|/etc/b||\n|**p2**||\n|/etc/c||\n"
    );
    assert_eq!(
        backup_tab_markdown("p1", &files[..2].iter().map(|b| backup(&b.path, "p1", b.path == "/etc/a")).collect()),
        "## p1\n|Backup Files|Status|\n|---|---|\n/etc/a|modified\n/etc/b|\n"
    );
}

#[test]
fn titles_and_pkgbuild_sources() {
    assert_eq!(window_title("foo", "Hashes"), "foo  \u{2022}  Hashes");
    assert!(matches!(pkgbuild_source(""), PkgbuildSource::Unavailable));
    assert!(matches!(pkgbuild_source("https://x/PKGBUILD"), PkgbuildSource::Web(u) if u == "https://x/PKGBUILD"));
    assert!(matches!(pkgbuild_source("http://x"), PkgbuildSource::File(p) if p == "http://x"));
    assert!(matches!(pkgbuild_source("/home/u/PKGBUILD"), PkgbuildSource::File(_)));
    assert_eq!(pkgbuild_unavailable(), "PKGBUILD not available");
}

#[test]
fn font_declarations() {
    let f = FontFields {
        family: Some("Monospace".to_string()),
        size: Some(11 * 1024 + 500),
        weight: Some(FontWeight::Semilight),
        style: Some(FontStyle::Italic),
    };
    assert_eq!(
        font_css(&f),
        "font-family: Monospace; font-size: 11pt; font-weight: 300; font-style: italic; "
    );
    let g = FontFields { family: None, size: Some(-5), weight: Some(FontWeight::Bold), style: None };
    assert_eq!(font_css(&g), "font-size: 0pt; font-weight: bold; ");
    let none = FontFields { family: None, size: None, weight: None, style: None };
    assert_eq!(font_css(&none), "");
}

#[test]
fn list_dialog_pages() {
    assert_eq!(list_page(false, 3), "loading");
    assert_eq!(list_page(true, 0), "empty");
    assert_eq!(list_page(true, 3), "view");
}
