use pacview::backup::PkgBackup;
use pacview::history::history_count_label;
use pacview::flags::{PkgFlags, PkgValidation};
use pacview::links::{follow_link, link_list_spans, link_query, link_target, packager_span, LinkTarget};
use pacview::pkg_data::PkgData;
use pacview::pkg_object::PkgObject;
use pacview::pkg_object::paru_pkgbuild_url;
use pacview::search::aur_status_display;
use pacview::sort::{sort_backups, sort_names, text_le_exec};

fn strings(v: &[&str]) -> Vec<String> {
    v.iter().map(|s| s.to_string()).collect()
}

#[test]
fn names_sort_as_str() {
    assert_eq!(
        sort_names(strings(&["zlib", "Zed", "abc", "ab", "zlib", "é"])),
        strings(&["Zed", "ab", "abc", "zlib", "zlib", "é"])
    );
    assert!(sort_names(Vec::new()).is_empty());
    assert!(text_le_exec("ab", "abc"));
    assert!(text_le_exec("abc", "abc"));
    assert!(!text_le_exec("b", "abc"));
}

#[test]
fn backups_sort_by_path() {
    let b = |p: &str, h: &str| PkgBackup { path: p.to_string(), hash: h.to_string() };
    let sorted = sort_backups(vec![b("/etc/z", "1"), b("/etc/a", "2"), b("/etc/m", "3")]);
    let paths: Vec<&str> = sorted.iter().map(|x| x.path.as_str()).collect();
    assert_eq!(paths, vec!["/etc/a", "/etc/m", "/etc/z"]);
    assert_eq!(sorted[0].hash, "2");
}

#[test]
fn paru_pkgbuild_is_found_by_key() {
    let paths = strings(&[
        "/home/u/.cache/paru/repo/chaotic/foo-bar/PKGBUILD",
        "/home/u/.cache/paru/repo/chaotic/bar/PKGBUILD",
        "/home/u/.cache/paru/repo/chaotic/bar/PKGBUILD.orig",
    ]);
    assert_eq!(
        paru_pkgbuild_url(&paths, "bar/PKGBUILD").as_deref(),
        Some("file:///home/u/.cache/paru/repo/chaotic/bar/PKGBUILD")
    );
    assert_eq!(paru_pkgbuild_url(&paths, "baz/PKGBUILD"), None);
    assert_eq!(
        paru_pkgbuild_url(&strings(&["x/PKGBUILD"]), "x/PKGBUILD").as_deref(),
        Some("file://x/PKGBUILD")
    );
}

#[test]
fn packager_mail_spans() {
    let t = "Jane Doe <jane@example.org>";
    assert_eq!(packager_span(t), Some((10, 26)));
    assert_eq!(&t[10..26], "jane@example.org");
    assert_eq!(packager_span("<a@b>"), None);
    assert_eq!(packager_span("Jane <>"), None);
    assert_eq!(packager_span("Jane <a@b> x"), None);
    assert_eq!(packager_span("Jané <a<b>"), Some((7, 10)));
    assert_eq!(packager_span("Unknown Packager"), None);
}

#[test]
fn link_list_names() {
    let t = "glibc>=2.38     zlib     python: scripts     gtk4<5";
    let spans = link_list_spans(t);
    let names: Vec<&str> = spans.iter().map(|&(a, b)| &t[a..b]).collect();
    assert_eq!(names, vec!["glibc", "zlib", "python", "gtk4"]);
    assert!(link_list_spans("").is_empty());
    assert!(link_list_spans("a b").is_empty());
    let u = "ñame     ok";
    let names: Vec<&str> = link_list_spans(u).iter().map(|&(a, b)| &u[a..b]).collect();
    assert_eq!(names, vec!["ok"]);
    assert_eq!(link_target("zlib"), "pkg://zlib");
}

#[test]
fn aur_status_messages() {
    let ok = aur_status_display(&Ok(()));
    assert!(!ok.error_style && !ok.error_visible && ok.error_label.is_empty());
    let err = aur_status_display(&Err("Query arg too small.".to_string()));
    assert!(err.error_style && err.error_visible);
    assert_eq!(err.error_label, "Query arg too small");
    assert_eq!(aur_status_display(&Err(String::new())).error_label, "");
}

#[test]
fn history_position_labels() {
    assert_eq!(history_count_label(0, 3), "   \u{2022}   1/3");
    assert_eq!(history_count_label(0, 1), "");
    assert_eq!(history_count_label(u32::MAX, 0), "");
}

#[test]
fn sorting_does_not_depend_on_the_first_order() {
    let a = sort_names(strings(&["b", "a", "c", "a"]));
    let b = sort_names(strings(&["a", "c", "a", "b"]));
    assert_eq!(a, b);
    assert_eq!(sort_names(a.clone()), a);
}

fn pkg(name: &str, provides: &[&str]) -> PkgObject {
    PkgObject::new(PkgData {
        flags: PkgFlags::none(),
        is_installed: false,
        base: None,
        name: name.to_string(),
        version: "1".to_string(),
        description: None,
        popularity: None,
        out_of_date: None,
        url: None,
        licenses: Vec::new(),
        repository: "aur".to_string(),
        groups: Vec::new(),
        depends: Vec::new(),
        optdepends: Vec::new(),
        makedepends: Vec::new(),
        provides: strings(provides),
        conflicts: Vec::new(),
        replaces: Vec::new(),
        architecture: None,
        packager: None,
        build_date: 0,
        install_date: None,
        download_size: 0,
        install_size: 0,
        has_script: None,
        validation: PkgValidation::default(),
    })
}

#[test]
fn links_lead_to_packages() {
    assert_eq!(link_query("glibc", Some(">=2.38")), "glibc>=2.38");
    assert_eq!(link_query("glibc", None), "glibc");
    let pkgs = vec![pkg("zlib", &[]), pkg("glibc", &[])];
    let aur = vec![pkg("foo-git", &["foo"]), pkg("foo", &[]), pkg("bar", &["sh"])];
    let glibc = "glibc".to_string();
    assert_eq!(follow_link("glibc>=2", &glibc, Some(&glibc), &pkgs, &aur), Some(LinkTarget::Package(1)));
    let foo = "foo".to_string();
    assert_eq!(follow_link("foo", &foo, None, &pkgs, &aur), Some(LinkTarget::Aur(1)));
    let sh = "sh".to_string();
    assert_eq!(follow_link("sh", &sh, None, &pkgs, &aur), Some(LinkTarget::Aur(2)));
    let bash = "bash".to_string();
    assert_eq!(follow_link("sh", &sh, Some(&bash), &pkgs, &aur), Some(LinkTarget::Aur(2)));
    let nope = "nope".to_string();
    assert_eq!(follow_link("nope", &nope, None, &pkgs, &aur), None);
}
