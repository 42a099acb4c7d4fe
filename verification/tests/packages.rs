use pacview::flags::PkgFlags;
use pacview::pkg_data::{package_flags, AlpmPackageInfo, AurPackageInfo, PkgData, PkgReason};
use pacview::pkg_object::{contains_name, PkgObject, PkgbuildLocation};
use pacview::search::{
    any_matches, apply_updates, aur_search_field, common_names, compare_packages, matching_label,
    normalize_term, package_list_markdown, package_matches, sort_button_display, status_matches, text_matches,
    AurSearchError, AurSearchField, SearchProp, SearchQuery, SortProp,
};
use pacview::text::Order;

fn strings(v: &[&str]) -> Vec<String> {
    v.iter().map(|s| s.to_string()).collect()
}

fn alpm_info(name: &str, reason: PkgReason, required: bool, optional: bool) -> AlpmPackageInfo {
    AlpmPackageInfo {
        reason,
        has_required_by: required,
        has_optional_for: optional,
        base: None,
        name: name.to_string(),
        version: "1.0-1".to_string(),
        description: Some(format!("The {name} package")),
        url: Some("https://example.org".to_string()),
        licenses: strings(&["MIT", "GPL"]),
        groups: strings(&["xorg", "base-devel"]),
        depends: strings(&["zlib", "glibc"]),
        optdepends: strings(&["python: scripts"]),
        provides: Vec::new(),
        conflicts: Vec::new(),
        replaces: Vec::new(),
        architecture: Some("x86_64".to_string()),
        packager: Some("Jane <jane@example.org>".to_string()),
        build_date: 1700000000,
        install_date: Some(1700000100),
        download_size: 200,
        install_size: 204800,
        has_scriptlet: true,
        validation_bits: 0x12,
    }
}

fn local_pkg(name: &str, reason: PkgReason) -> PkgObject {
    PkgObject::new(PkgData::from_alpm(alpm_info(name, reason, false, false), true, "core"))
}

fn sync_pkg(name: &str, repo: &str) -> PkgObject {
    PkgObject::new(PkgData::from_alpm(alpm_info(name, PkgReason::Depend, false, false), false, repo))
}

fn aur_info(name: &str, votes: u32) -> AurPackageInfo {
    AurPackageInfo {
        name: name.to_string(),
        version: "2.0-1".to_string(),
        description: None,
        popularity_text: "1.25".to_string(),
        num_votes: votes,
        out_of_date: Some(1650000000),
        url: None,
        license: strings(&["GPL3"]),
        groups: Vec::new(),
        depends: strings(&["gtk4"]),
        opt_depends: Vec::new(),
        make_depends: strings(&["rust", "cargo"]),
        provides: Vec::new(),
        conflicts: Vec::new(),
        replaces: Vec::new(),
        maintainer: Some("bob".to_string()),
        last_modified: 1690000000,
    }
}

#[test]
fn package_flags_follow_install_reason() {
    assert_eq!(package_flags(true, PkgReason::Explicit, true, true).bits(), 1);
    assert_eq!(package_flags(true, PkgReason::Depend, true, false).bits(), 2);
    assert_eq!(package_flags(true, PkgReason::Depend, false, true).bits(), 4);
    assert_eq!(package_flags(true, PkgReason::Depend, false, false).bits(), 8);
    assert_eq!(package_flags(false, PkgReason::Explicit, false, false).bits(), 16);
}

#[test]
fn from_alpm_sorts_lists_and_keeps_fields() {
    let d = PkgData::from_alpm(alpm_info("foo", PkgReason::Depend, true, false), true, "extra");
    assert_eq!(d.flags.bits(), 2);
    assert!(d.is_installed);
    assert_eq!(d.name, "foo");
    assert_eq!(d.repository, "extra");
    assert_eq!(d.licenses, strings(&["GPL", "MIT"]));
    assert_eq!(d.groups, strings(&["base-devel", "xorg"]));
    assert_eq!(d.depends, strings(&["glibc", "zlib"]));
    assert!(d.makedepends.is_empty());
    assert_eq!(d.has_script.as_deref(), Some("Yes"));
    assert_eq!(d.validation.bits(), 2);
    assert!(d.popularity.is_none());
}

#[test]
fn from_aur_builds_popularity() {
    let d = PkgData::from_aur(aur_info("paru", 12));
    assert_eq!(d.popularity.as_deref(), Some("1.25 (12 votes)"));
    assert_eq!(d.repository, "aur");
    assert_eq!(d.flags.bits(), 16);
    assert_eq!(d.makedepends, strings(&["cargo", "rust"]));
    assert_eq!(d.packager.as_deref(), Some("bob"));
    assert_eq!(d.build_date, 1690000000);
    assert_eq!(d.validation.bits(), 1);
    let one = PkgData::from_aur(aur_info("yay", 1));
    assert_eq!(one.popularity.as_deref(), Some("1.25 (1 vote)"));
}

#[test]
fn update_version_adds_updates_flag() {
    let mut p = local_pkg("foo", PkgReason::Explicit);
    assert_eq!(p.flags().bits(), 1);
    p.set_update_version(Some("1.1-1".to_string()));
    assert_eq!(p.flags().bits(), 33);
    assert_eq!(p.update_version().as_deref(), Some("1.1-1"));
    p.set_update_version(None);
    assert_eq!(p.flags().bits(), 1);
}

#[test]
fn status_words_and_classes() {
    let e = local_pkg("a", PkgReason::Explicit);
    assert_eq!(e.status(), "explicit");
    assert_eq!(e.status_css_classes(), vec!["tag", "success"]);
    let o = local_pkg("b", PkgReason::Depend);
    assert_eq!(o.status(), "orphan");
    assert_eq!(o.status_css_classes(), vec!["tag", "warning"]);
    let s = sync_pkg("c", "extra");
    assert_eq!(s.status(), "");
    assert!(s.status_css_classes().is_empty());
}

#[test]
fn size_strings_come_from_the_size_crate() {
    let p = local_pkg("foo", PkgReason::Explicit);
    assert_eq!(p.download_size_string(), "200 bytes");
    assert_eq!(p.install_size_string(), "200 KiB");
}

#[test]
fn package_urls() {
    let repos = strings(&["core", "extra"]);
    let s = sync_pkg("foo", "extra");
    assert_eq!(
        s.package_url(&repos).as_deref(),
        Some("https://www.archlinux.org/packages/extra/x86_64/foo/")
    );
    let a = PkgObject::new(PkgData::from_aur(aur_info("paru", 3)));
    assert_eq!(a.package_url(&repos).as_deref(), Some("https://aur.archlinux.org/packages/paru"));
    let other = sync_pkg("foo", "chaotic");
    assert!(other.package_url(&repos).is_none());
    assert!(contains_name(&repos, &"core".to_string()));
    assert!(!contains_name(&repos, &"multilib".to_string()));
}

#[test]
fn pkgbuild_locations() {
    let repos = strings(&["core", "extra"]);
    match sync_pkg("foo", "extra").pkgbuild_location(&repos, false) {
        PkgbuildLocation::Url(u) => assert_eq!(
            u,
            "https://gitlab.archlinux.org/archlinux/packaging/packages/foo/-/blob/main/PKGBUILD"
        ),
        other => panic!("unexpected {other:?}"),
    }
    match PkgObject::new(PkgData::from_aur(aur_info("paru", 3))).pkgbuild_location(&repos, false) {
        PkgbuildLocation::Url(u) => {
            assert_eq!(u, "https://aur.archlinux.org/cgit/aur.git/tree/PKGBUILD?h=paru")
        }
        other => panic!("unexpected {other:?}"),
    }
    match sync_pkg("foo", "chaotic").pkgbuild_location(&repos, true) {
        PkgbuildLocation::ParuRepo { repo, key } => {
            assert_eq!(repo, "chaotic");
            assert_eq!(key, "foo/PKGBUILD");
        }
        other => panic!("unexpected {other:?}"),
    }
    assert!(matches!(
        sync_pkg("foo", "chaotic").pkgbuild_location(&repos, false),
        PkgbuildLocation::Unavailable
    ));
    assert!(matches!(
        sync_pkg("foo", "local").pkgbuild_location(&repos, true),
        PkgbuildLocation::Unavailable
    ));
}

#[test]
fn search_terms_are_trimmed_and_lowercased() {
    assert_eq!(normalize_term("  GTK Theme \n"), "gtk theme");
    let q = SearchQuery::new(" Linux  Firmware ");
    assert_eq!(q.term, "linux  firmware");
    assert_eq!(q.tokens, strings(&["linux", "firmware"]));
}

#[test]
fn text_matching_by_words_or_exactly() {
    let q = SearchQuery::new("firm linux");
    assert!(text_matches(&q, false, "linux-firmware"));
    assert!(!text_matches(&q, false, "linux"));
    let e = SearchQuery::new("Linux");
    assert!(text_matches(&e, true, "LINUX"));
    assert!(!text_matches(&e, true, "linux-lts"));
    assert!(any_matches(&e, false, &strings(&["glibc", "linux-api-headers"])));
    assert!(!any_matches(&e, false, &Vec::new()));
}

#[test]
fn package_matching_by_property() {
    let p = local_pkg("foo", PkgReason::Explicit);
    let files = strings(&["/usr/bin/foo", "/usr/share/doc/foo"]);
    let q = SearchQuery::new("xorg");
    assert!(package_matches(&q, false, SearchProp::Groups, &p, &files));
    assert!(!package_matches(&q, false, SearchProp::Name, &p, &files));
    let d = SearchQuery::new("package");
    assert!(package_matches(&d, false, SearchProp::NameDesc, &p, &files));
    let f = SearchQuery::new("doc");
    assert!(package_matches(&f, false, SearchProp::Files, &p, &files));
    let empty = SearchQuery::new("   ");
    assert!(package_matches(&empty, true, SearchProp::Deps, &p, &files));
}

#[test]
fn status_filter() {
    let mut p = local_pkg("foo", PkgReason::Explicit);
    assert!(status_matches(&p, PkgFlags::installed()));
    assert!(!status_matches(&p, PkgFlags::updates()));
    p.set_update_version(Some("2".to_string()));
    assert!(status_matches(&p, PkgFlags::updates()));
    assert!(!status_matches(&sync_pkg("x", "extra"), PkgFlags::installed()));
}

#[test]
fn sorting_packages() {
    let a = local_pkg("alpha", PkgReason::Explicit);
    let b = sync_pkg("beta", "extra");
    assert_eq!(compare_packages(&a, &b, SortProp::Name, true), Order::Less);
    assert_eq!(compare_packages(&a, &b, SortProp::Name, false), Order::Greater);
    assert_eq!(compare_packages(&a, &b, SortProp::Repository, true), Order::Less);
    assert_eq!(compare_packages(&a, &b, SortProp::Status, true), Order::Greater);
    assert_eq!(compare_packages(&a, &a, SortProp::InstalledSize, true), Order::Equal);
    assert_eq!(compare_packages(&a, &b, SortProp::Groups, false), Order::Equal);
}

#[test]
fn descending_is_reverse_of_ascending() {
    let a = local_pkg("alpha", PkgReason::Explicit);
    let b = local_pkg("beta", PkgReason::Depend);
    for prop in [SortProp::Name, SortProp::Status, SortProp::InstallDate] {
        assert_eq!(
            compare_packages(&a, &b, prop, false),
            compare_packages(&a, &b, prop, true).reverse()
        );
    }
}

#[test]
fn aur_search_fields_and_errors() {
    assert_eq!(aur_search_field("a", SearchProp::Name), Err(AurSearchError::QueryTooSmall));
    assert_eq!(aur_search_field("ab", SearchProp::Files), Err(AurSearchError::FilesSearch));
    assert_eq!(aur_search_field("ab", SearchProp::Deps), Ok(AurSearchField::Depends));
    assert_eq!(AurSearchError::QueryTooSmall.message(), "Query arg too small.");
    assert_eq!(AurSearchError::FilesSearch.message(), "Cannot search by files.");
    assert_eq!(AurSearchError::NoResults.message(), "failed to parse search results");
}

#[test]
fn common_names_of_word_results() {
    let lists = vec![strings(&["a", "b", "c"]), strings(&["c", "a"]), strings(&["a", "c", "d"])];
    assert_eq!(common_names(&lists), Ok(strings(&["a", "c"])));
    assert_eq!(common_names(&Vec::new()), Err(AurSearchError::NoResults));
    assert_eq!(common_names(&vec![strings(&["x"])]), Ok(strings(&["x"])));
}

#[test]
fn labels_and_copy() {
    assert_eq!(matching_label(1), "1 matching package");
    assert_eq!(matching_label(0), "0 matching packages");
    let p = local_pkg("foo", PkgReason::Explicit);
    assert_eq!(
        package_list_markdown(&vec![p]),
        "## Package List\n|Package Name|Version|Repository|Status|Installed Size|Groups|\n|---|---|---|---|---:|---|\n|foo|1.0-1|core|explicit|200 KiB|base-devel | xorg|\n"
    );
}

#[test]
fn updates_are_applied_by_name() {
    let mut pkgs = vec![local_pkg("a", PkgReason::Explicit), local_pkg("b", PkgReason::Explicit)];
    let updates = vec![("b".to_string(), "2.0-1".to_string()), ("z".to_string(), "9".to_string())];
    apply_updates(&mut pkgs, &updates);
    assert!(pkgs[0].update_version().is_none());
    assert_eq!(pkgs[1].update_version().as_deref(), Some("2.0-1"));
    assert_eq!(pkgs[1].flags().bits(), 33);
}

#[test]
fn sort_button_shows_direction() {
    assert_eq!(sort_button_display(true), ("view-sort-ascending-symbolic", "Sort Descending"));
    assert_eq!(sort_button_display(false), ("view-sort-descending-symbolic", "Sort Ascending"));
}

#[test]
fn getters_read_package_data() {
    let p = local_pkg("foo", PkgReason::Explicit);
    assert_eq!(p.description(), Some("The foo package"));
    assert_eq!(p.popularity(), None);
    assert_eq!(p.url(), Some("https://example.org"));
    assert_eq!(p.licenses(), &["GPL".to_string(), "MIT".to_string()][..]);
    assert_eq!(p.depends(), &["glibc".to_string(), "zlib".to_string()][..]);
    assert!(p.makedepends().is_empty());
    assert_eq!(p.architecture(), Some("x86_64"));
    assert_eq!(p.packager(), Some("Jane <jane@example.org>"));
    assert_eq!(p.build_date(), 1700000000);
    assert_eq!(p.install_date(), Some(1700000100));
    assert_eq!(p.out_of_date(), None);
    assert_eq!(p.download_size(), 200);
    assert_eq!(p.install_size(), 204800);
    assert_eq!(p.has_script(), Some("Yes"));
    assert_eq!(p.validation().bits(), 2);
    assert!(p.is_installed());
}

#[test]
fn list_row_texts() {
    let p = local_pkg("foo", PkgReason::Explicit);
    assert_eq!(p.status_icon(), "pkg-explicit");
    assert_eq!(local_pkg("bar", PkgReason::Depend).status_icon(), "pkg-orphan");
    assert_eq!(sync_pkg("baz", "extra").status_icon(), "");
    assert_eq!(p.install_date_or_zero(), 1700000100);
    assert_eq!(PkgObject::new(PkgData::from_aur(aur_info("paru", 1))).install_date_or_zero(), 0);
    assert_eq!(p.groups_joined(), "base-devel, xorg");
    assert_eq!(p.licenses_joined(), "GPL, MIT");
}
