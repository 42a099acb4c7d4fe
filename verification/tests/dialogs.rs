use pacview::backup::{
    backup_actions, backup_line, backup_matches, backup_status, count_sections,
    files_in_packages_label, status_filter_matches, BackupObject, BackupSearchMode, BackupStatus,
    PkgBackup,
};
use pacview::cache::{
    cache_blacklist, cache_glob, cache_markdown, cache_matches, cache_size_label, contains_str, files_label,
    package_cache_files, starts_with_str, CacheObject,
};
use pacview::groups::{
    group_entries, groups_markdown, groups_matches, installed_filter_matches, unique_label,
    unique_packages, GroupEntry, GroupsSearchMode,
};
use pacview::pkg_data::{PkgData, PkgReason, AlpmPackageInfo};
use pacview::pkg_object::PkgObject;
use pacview::stats::{repo_stats, repository_stats, stats_labels, PkgSummary, RepoStats};

fn strings(v: &[&str]) -> Vec<String> {
    v.iter().map(|s| s.to_string()).collect()
}

fn backup(path: &str, hash: &str, package: &str, file_hash: Option<&str>) -> BackupObject {
    let h = file_hash.map(|s| s.to_string());
    BackupObject::new(
        PkgBackup { path: path.to_string(), hash: hash.to_string() },
        package,
        h.as_ref(),
    )
}

fn grouped_pkg(name: &str, groups: &[&str], installed: bool) -> PkgObject {
    PkgObject::new(PkgData::from_alpm(
        AlpmPackageInfo {
            reason: PkgReason::Explicit,
            has_required_by: false,
            has_optional_for: false,
            base: None,
            name: name.to_string(),
            version: "1".to_string(),
            description: None,
            url: None,
            licenses: Vec::new(),
            groups: strings(groups),
            depends: Vec::new(),
            optdepends: Vec::new(),
            provides: Vec::new(),
            conflicts: Vec::new(),
            replaces: Vec::new(),
            architecture: None,
            packager: None,
            build_date: 0,
            install_date: None,
            download_size: 0,
            install_size: 0,
            has_scriptlet: false,
            validation_bits: 0,
        },
        installed,
        "extra",
    ))
}

#[test]
fn backup_status_from_hashes() {
    let same = "abc".to_string();
    let other = "abd".to_string();
    assert_eq!(backup_status(Some(&same), &same), BackupStatus::Unmodified);
    assert_eq!(backup_status(Some(&other), &same), BackupStatus::Modified);
    assert_eq!(backup_status(None, &same), BackupStatus::Locked);
    assert_eq!(BackupStatus::default(), BackupStatus::Unmodified);
}

#[test]
fn backup_status_words() {
    assert_eq!(BackupStatus::Locked.word(), "access denied");
    assert_eq!(BackupStatus::Modified.css_classes(), vec!["tag", "warning"]);
    assert_eq!(BackupStatus::Locked.css_classes(), vec!["tag", "error"]);
    assert!(BackupStatus::Unmodified.css_classes().is_empty());
    assert_eq!(BackupStatus::Modified.text(), "modified");
    assert_eq!(BackupStatus::Unmodified.text(), "");
}

#[test]
fn backup_objects_and_lines() {
    let b = backup("/etc/pacman.conf", "aa", "pacman", Some("bb"));
    assert_eq!(b.status, BackupStatus::Modified);
    assert_eq!(b.package, "pacman");
    assert_eq!(backup_line(&b), "/etc/pacman.conf (modified)");
    let u = backup("/etc/x", "aa", "x", Some("aa"));
    assert_eq!(backup_line(&u), "/etc/x ()");
}

#[test]
fn backup_search_and_filters() {
    let b = backup("/etc/pacman.conf", "aa", "pacman", None);
    assert!(backup_matches("", BackupSearchMode::Files, &b));
    assert!(backup_matches("conf", BackupSearchMode::Files, &b));
    assert!(!backup_matches("conf", BackupSearchMode::Packages, &b));
    assert!(backup_matches("pacman", BackupSearchMode::All, &b));
    assert!(status_filter_matches(BackupStatus::All, &b));
    assert!(status_filter_matches(BackupStatus::Locked, &b));
    assert!(!status_filter_matches(BackupStatus::Modified, &b));
    assert_eq!(BackupSearchMode::All.next(), BackupSearchMode::Packages);
    assert_eq!(BackupSearchMode::All.previous(), BackupSearchMode::Files);
    assert_eq!(BackupSearchMode::default(), BackupSearchMode::All);
    assert_eq!(BackupSearchMode::Files.label(), "Files");
    assert_eq!(GroupsSearchMode::default(), GroupsSearchMode::All);
    assert_eq!(GroupsSearchMode::Groups.label(), "Groups");
}

#[test]
fn backup_actions_and_labels() {
    assert_eq!(backup_actions(true, Some(BackupStatus::Modified)), (true, true));
    assert_eq!(backup_actions(false, Some(BackupStatus::Modified)), (false, true));
    assert_eq!(backup_actions(true, Some(BackupStatus::Locked)), (false, false));
    assert_eq!(backup_actions(true, None), (false, false));
    assert_eq!(count_sections(&strings(&["a", "a", "b", "a"])), 3);
    assert_eq!(count_sections(&Vec::new()), 0);
    assert_eq!(files_in_packages_label(1, 2), "1 file in 2 packages");
    assert_eq!(files_in_packages_label(3, 1), "3 files in 1 package");
}

#[test]
fn group_rows_and_filters() {
    let pkgs = vec![
        grouped_pkg("xterm", &["xorg-apps", "xorg"], true),
        grouped_pkg("gcc", &["base-devel"], false),
    ];
    let rows = group_entries(&pkgs);
    let seen: Vec<(String, String, String)> =
        rows.iter().map(|e| (e.package.clone(), e.status.clone(), e.groups.clone())).collect();
    assert_eq!(
        seen,
        vec![
            ("xterm".to_string(), "explicit".to_string(), "xorg".to_string()),
            ("xterm".to_string(), "explicit".to_string(), "xorg-apps".to_string()),
            ("gcc".to_string(), "".to_string(), "base-devel".to_string()),
        ]
    );
    assert!(groups_matches("devel", GroupsSearchMode::Groups, &rows[2]));
    assert!(!groups_matches("devel", GroupsSearchMode::Packages, &rows[2]));
    assert!(installed_filter_matches(true, &rows[0]));
    assert!(!installed_filter_matches(true, &rows[2]));
    assert!(installed_filter_matches(false, &rows[2]));
    assert_eq!(GroupsSearchMode::Packages.next(), GroupsSearchMode::All);
}

#[test]
fn group_counts_and_copy() {
    let e = |p: &str, g: &str| GroupEntry {
        package: p.to_string(),
        status: "explicit".to_string(),
        groups: g.to_string(),
    };
    let rows = vec![e("a", "g1"), e("b", "g1"), e("a", "g2")];
    assert_eq!(unique_packages(&rows), 2);
    assert_eq!(unique_label(2, 1), "2 unique packages in 1 group");
    assert_eq!(unique_label(1, 3), "1 unique package in 3 groups");
    assert_eq!(
        groups_markdown(&rows),
        "## Pacman Groups\n|Package Name|Status|\n|---|---|\n|**g1**||\n|a|explicit|\n|b|explicit|\n|**g2**||\n|a|explicit|\n"
    );
}

#[test]
fn repository_statistics() {
    let s = |r: &str, st: &str, size: i64| PkgSummary {
        repository: r.to_string(),
        status: st.to_string(),
        install_size: size,
    };
    let pkgs = vec![s("core", "explicit", 100), s("core", "", 50), s("extra", "orphan", 10), s("aur", "", 0)];
    let core = repo_stats(&pkgs, &"core".to_string());
    assert_eq!((core.packages, core.installed, core.size), (2, 1, 100));
    let (rows, total) = repository_stats(&pkgs, &strings(&["core", "extra", "multilib"]));
    assert_eq!(rows.len(), 2);
    assert_eq!(rows[1].repository, "extra");
    assert_eq!((total.packages, total.installed, total.size), (3, 2, 110));
    let sum = rows.iter().fold((0, 0, 0), |acc, r| (acc.0 + r.packages, acc.1 + r.installed, acc.2 + r.size));
    assert_eq!(sum, (total.packages, total.installed, total.size));
    assert_eq!(total.repository, "Total");
}

#[test]
fn statistics_labels() {
    let row = RepoStats { repository: "extra-testing".to_string(), size: 2048, installed: 1, packages: 5 };
    let l = stats_labels(&row);
    assert_eq!(l.title, "Extra Testing");
    assert_eq!(l.size, "2.00 KiB");
    assert_eq!(l.installed, "1 installed");
    assert_eq!(l.packages, "5 pkgs");
    let aur = RepoStats { repository: "aur".to_string(), size: 0, installed: 0, packages: 0 };
    assert_eq!(stats_labels(&aur).title, "AUR");
}

#[test]
fn substring_helpers() {
    assert!(contains_str("/var/cache/pacman/pkg/foo-1-x86_64.pkg.tar.zst", "foo-1"));
    assert!(!contains_str("foo", "food"));
    assert!(contains_str("foo", ""));
    assert!(starts_with_str("foobar", "foo"));
    assert!(!starts_with_str("fo", "foo"));
}

#[test]
fn cache_blacklist_and_files() {
    let installed = strings(&["foo", "foo-git", "bar", "foobar"]);
    let blacklist = cache_blacklist(&installed, "foo");
    assert_eq!(blacklist, strings(&["foo-git", "foobar"]));
    let files = strings(&[
        "/c/foo-1.0-1-x86_64.pkg.tar.zst",
        "/c/foo-git-2.0-1-x86_64.pkg.tar.zst",
        "/c/foobar-3-1-any.pkg.tar.zst",
    ]);
    assert_eq!(package_cache_files(&files, &blacklist), strings(&["/c/foo-1.0-1-x86_64.pkg.tar.zst"]));
    assert_eq!(package_cache_files(&files, &Vec::new()), files);
}

#[test]
fn cache_objects_and_labels() {
    let c = CacheObject::new("/var/cache/pacman/pkg/zstd-1.5-1-x86_64.pkg.tar.zst");
    assert_eq!(c.filename, "zstd-1.5-1-x86_64.pkg.tar.zst");
    assert_eq!(CacheObject::new("plain").filename, "plain");
    assert_eq!(CacheObject::new("/dir/").filename, "");
    assert!(cache_matches("ZSTD", &c));
    assert!(!cache_matches("pacman", &c));
    assert!(cache_matches("", &c));
    assert_eq!(files_label(1), "1 file");
    assert_eq!(files_label(4), "4 files");
    assert_eq!(cache_size_label(4), "Cache size on disk: 2.00 KiB");
    assert_eq!(
        cache_markdown(&strings(&["/a.zst", "/b.zst"])),
        "## Cache Files\n|File|\n|---|\n|/a.zst|\n|/b.zst|\n"
    );
}

#[test]
fn cache_pattern_of_a_package() {
    assert!(cache_glob("foo-1.0-1-x86_64.pkg.tar.zst", "foo"));
    assert!(cache_glob("foo.zst", "foo"));
    assert!(!cache_glob("foo.zst", "foo.zst"));
    assert!(!cache_glob("foo-1.0-1-x86_64.pkg.tar.zst.sig", "foo"));
    assert!(!cache_glob("bar-1.zst", "foo"));
}

#[test]
fn cache_package_extension() {
    assert!(pacview::cache::is_zst_file("foo-1-any.pkg.tar.zst"));
    assert!(pacview::cache::is_zst_file("a.zst"));
    assert!(!pacview::cache::is_zst_file(".zst"));
    assert!(!pacview::cache::is_zst_file("foo.zst.sig"));
    assert!(!pacview::cache::is_zst_file("zst"));
}

#[test]
fn statistics_take_negative_sizes() {
    let s = |r: &str, st: &str, size: i64| PkgSummary {
        repository: r.to_string(),
        status: st.to_string(),
        install_size: size,
    };
    let pkgs = vec![s("core", "explicit", -5), s("core", "orphan", 20)];
    let (rows, total) = repository_stats(&pkgs, &strings(&["core"]));
    assert_eq!(rows[0].size, 15);
    assert_eq!(total.size, 15);
}
