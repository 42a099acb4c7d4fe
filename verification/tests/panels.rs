use pacview::aur::{AurInfo, AurItem};
use pacview::details::{
    detail_rows, details_markdown, installed_optdeps, optdep_name, row_value, DetailsHeader, PropID,
    PropType, ValueType,
};
use pacview::flags::PkgFlags;
use pacview::sidebar::{
    filter_row_indicator, repo_indicator, sidebar_indicator, status_item_display, RepoItemState,
    SidebarItemState, StatusItemState, Updates,
};

fn strings(v: &[&str]) -> Vec<String> {
    v.iter().map(|s| s.to_string()).collect()
}

#[test]
fn repo_item_states() {
    let r = repo_indicator(&RepoItemState::AurResults(12));
    assert!(!r.spinner_visible);
    assert!(r.count_visible);
    assert_eq!(r.count_label.as_deref(), Some("+12"));
    let z = repo_indicator(&RepoItemState::AurResults(0));
    assert!(!z.count_visible);
    assert_eq!(z.count_label.as_deref(), Some("+0"));
    let s = repo_indicator(&RepoItemState::Searching);
    assert!(s.spinner_visible && !s.count_visible && s.count_label.is_none());
    assert_eq!(RepoItemState::default(), RepoItemState::Reset);
    assert!(!repo_indicator(&RepoItemState::Reset).spinner_visible);
}

#[test]
fn status_item_states() {
    let ok = status_item_display(&StatusItemState::Updates(3, None));
    assert_eq!(ok.icon, "status-updates-new-symbolic");
    assert!(ok.indicator.count_visible);
    assert_eq!(ok.indicator.count_label.as_deref(), Some("3"));
    assert!(ok.tooltip.is_none());
    let none = status_item_display(&StatusItemState::Updates(0, None));
    assert_eq!(none.icon, "status-updates-symbolic");
    assert!(!none.indicator.count_visible);
    let err = status_item_display(&StatusItemState::Updates(0, Some("offline".to_string())));
    assert_eq!(err.icon, "status-updates-error-symbolic");
    assert_eq!(err.tooltip.as_deref(), Some("offline"));
    let checking = status_item_display(&StatusItemState::Checking);
    assert!(checking.indicator.spinner_visible);
    assert_eq!(checking.icon, "status-updates-symbolic");
    let reset = status_item_display(&StatusItemState::Reset);
    assert!(!reset.indicator.spinner_visible && reset.tooltip.is_none());
    assert!(matches!(StatusItemState::default(), StatusItemState::Updates(0, None)));
}

#[test]
fn filter_row_and_indicator_states() {
    let out = filter_row_indicator(&Updates::Output(Some("failed".to_string()), 2));
    assert!(!out.spinner_visible);
    assert!(out.count_visible);
    assert_eq!(out.count_label.as_deref(), Some("2"));
    assert_eq!(out.error.as_deref(), Some("failed"));
    let c = filter_row_indicator(&Updates::Checking);
    assert!(c.spinner_visible && !c.count_visible && c.error.is_none());
    assert!(matches!(Updates::default(), Updates::Output(None, 0)));
    let r = sidebar_indicator(&SidebarItemState::Reset);
    assert!(!r.spinner_visible && !r.count_visible && r.error.is_none());
    let u = sidebar_indicator(&SidebarItemState::Updates(None, 0));
    assert!(!u.count_visible && u.error.is_none());
    assert_eq!(u.count_label.as_deref(), Some("0"));
    assert!(sidebar_indicator(&SidebarItemState::Checking).spinner_visible);
    assert!(matches!(SidebarItemState::default(), SidebarItemState::Updates(None, 0)));
}

#[test]
fn property_rows() {
    assert_eq!(PropID::ConflictsWith.label(), "Conflicts With");
    assert_eq!(PropID::default().label(), "Popularity");
    let rows = detail_rows();
    assert_eq!(rows.len(), 21);
    assert_eq!(rows[1], (PropID::OutOfDate, PropType::Error));
    assert_eq!(rows[15], (PropID::Packager, PropType::Packager));
    assert!(PropType::Packager.has_link_handler());
    assert!(!PropType::Error.has_link_handler());
    assert_eq!(PropType::default(), PropType::Text);
}

#[test]
fn row_values() {
    let list = strings(&["a", "b"]);
    let empty: Vec<String> = Vec::new();
    assert_eq!(row_value(&ValueType::Str(""), "  ").as_deref(), Some(""));
    assert_eq!(row_value(&ValueType::StrOpt(""), "  "), None);
    assert_eq!(row_value(&ValueType::StrOpt("x"), "  ").as_deref(), Some("x"));
    assert_eq!(row_value(&ValueType::StrOptNum("1 KiB", 0), "  "), None);
    assert_eq!(row_value(&ValueType::StrOptNum("1 KiB", 1024), "  ").as_deref(), Some("1 KiB"));
    assert_eq!(row_value(&ValueType::Vec(&list), "  ").as_deref(), Some("a  b"));
    assert_eq!(row_value(&ValueType::Vec(&empty), "  ").as_deref(), Some(""));
    assert_eq!(row_value(&ValueType::VecOpt(&empty), "  "), None);
    assert_eq!(row_value(&ValueType::VecOptJoin(&list), "  ").as_deref(), Some("a | b"));
}

#[test]
fn optional_dependencies() {
    assert_eq!(optdep_name("python: for scripts").as_deref(), Some("python"));
    assert_eq!(optdep_name("nodesc"), None);
    let deps = strings(&["python: scripts", "perl: docs", "nodesc"]);
    let sat = vec![true, false, true];
    assert_eq!(
        installed_optdeps(PkgFlags::explicit(), &deps, &sat, " [installed]"),
        strings(&["python: scripts [installed]", "perl: docs", "nodesc"])
    );
    assert_eq!(installed_optdeps(PkgFlags::none(), &deps, &sat, " [installed]"), deps);
}

#[test]
fn details_copy() {
    let header = DetailsHeader {
        name: "foo".to_string(),
        version: "1".to_string(),
        description: "Foo".to_string(),
        repository: "core".to_string(),
        install_size: "2 KiB".to_string(),
        status: "explicit".to_string(),
    };
    let rows = vec![
        ("URL".to_string(), "https://x".to_string()),
        ("Groups".to_string(), "".to_string()),
    ];
    assert_eq!(
        details_markdown(&header, &rows),
        "## Package Information\n- **Name** : foo\n- **Version** : 1\n- **Description** : Foo\n- **Repository** : core\n- **Installed Size** : 2 KiB\n- **Status** : explicit\n- **URL** : https://x\n"
    );
}

#[test]
fn aur_reply_holds_names() {
    let info = AurInfo {
        resultcount: 1,
        results: vec![AurItem { Name: "paru".to_string() }],
        reply_type: "search".to_string(),
        version: 5,
    };
    assert_eq!(info.results[0].Name, "paru");
}

fn sample_config() -> pacview::config::PacmanConfig {
    pacview::config::PacmanConfig {
        root_dir: "/".to_string(),
        db_path: "/var/lib/pacman/".to_string(),
        cache_dir: strings(&["/var/cache/pacman/pkg/", "/mnt/cache/"]),
        hook_dir: Vec::new(),
        gpg_dir: "/etc/pacman.d/gnupg/".to_string(),
        log_file: "/var/log/pacman.log".to_string(),
        hold_pkg: strings(&["pacman", "glibc"]),
        ignore_pkg: Vec::new(),
        ignore_group: Vec::new(),
        architecture: strings(&["x86_64"]),
        xfer_command: String::new(),
        no_upgrade: Vec::new(),
        no_extract: Vec::new(),
        clean_method: strings(&["KeepInstalled"]),
        sig_level: strings(&["Required", "DatabaseOptional"]),
        local_file_sig_level: strings(&["Optional"]),
        remote_file_sig_level: strings(&["Required"]),
        download_user: None,
        use_syslog: false,
        color: true,
        check_space: true,
        verbose_pkg_lists: false,
        disable_download_timeout: false,
        parallel_downloads: 5,
        disable_sandbox: false,
        disable_sandbox_filesystem: false,
        disable_sandbox_syscalls: false,
        chomp: true,
    }
}

#[test]
fn configuration_groups() {
    let groups = pacview::config::config_groups(&sample_config());
    let titles: Vec<&str> = groups.iter().map(|g| g.title.as_str()).collect();
    assert_eq!(titles, vec!["Paths", "Download", "Sandbox", "Packages", "Miscellaneous", "Signature Levels"]);
    let paths = &groups[0].rows;
    assert_eq!(paths[2].label, "CacheDir");
    assert_eq!(paths[2].value, "/var/cache/pacman/pkg/\n/mnt/cache/");
    assert_eq!(paths[2].action.as_deref(), Some("conf.path"));
    assert!(pacview::config::row_activatable(&paths[0]));
    assert!(!pacview::config::row_activatable(&paths[5]));
    let download = &groups[1].rows;
    assert_eq!(download[1].value, "5");
    assert_eq!(download[2].value, "false");
    assert_eq!(download[3].value, "None");
    assert!(download[0].action.is_none());
    assert!(!pacview::config::row_activatable(&download[1]));
    assert_eq!(groups[3].rows[0].value, "pacman | glibc");
    assert_eq!(groups[4].rows[5].label, "ILoveCandy");
    assert_eq!(groups[4].rows[5].value, "true");
    assert_eq!(groups[5].rows[0].value, "Required | DatabaseOptional");
}
