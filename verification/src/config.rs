//! The pacman configuration dialog: the groups of option rows it shows, and
//! which rows open a path.
use vstd::prelude::*;

use crate::text::{push_str, decimal, decimal_string, join_seqs, join_strings, views};

verus! {

//------------------------------------------------------------------------------
// STRUCT: PacmanConfig
//------------------------------------------------------------------------------
/// The options of pacman's configuration that the dialog shows.
#[derive(Debug)]
pub struct PacmanConfig {
    pub root_dir: String,
    pub db_path: String,
    pub cache_dir: Vec<String>,
    pub hook_dir: Vec<String>,
    pub gpg_dir: String,
    pub log_file: String,
    pub hold_pkg: Vec<String>,
    pub ignore_pkg: Vec<String>,
    pub ignore_group: Vec<String>,
    pub architecture: Vec<String>,
    pub xfer_command: String,
    pub no_upgrade: Vec<String>,
    pub no_extract: Vec<String>,
    pub clean_method: Vec<String>,
    pub sig_level: Vec<String>,
    pub local_file_sig_level: Vec<String>,
    pub remote_file_sig_level: Vec<String>,
    pub download_user: Option<String>,
    pub use_syslog: bool,
    pub color: bool,
    pub check_space: bool,
    pub verbose_pkg_lists: bool,
    pub disable_download_timeout: bool,
    pub parallel_downloads: u64,
    pub disable_sandbox: bool,
    pub disable_sandbox_filesystem: bool,
    pub disable_sandbox_syscalls: bool,
    pub chomp: bool,
}

//------------------------------------------------------------------------------
// Rows and groups
//------------------------------------------------------------------------------
/// One option row: its label, its value, and the action that activating
/// it runs (the path rows open the path).
#[derive(Debug)]
pub struct ConfigRow {
    pub label: String,
    pub value: String,
    pub action: Option<String>,
}

/// A titled group of rows.
#[derive(Debug)]
pub struct ConfigGroup {
    pub title: String,
    pub rows: Vec<ConfigRow>,
}

pub open spec fn row_view(r: ConfigRow) -> (Seq<char>, Seq<char>, Option<Seq<char>>) {
    (
        r.label@,
        r.value@,
        match r.action {
            Some(a) => Some(a@),
            None => None,
        },
    )
}

pub open spec fn group_view(g: ConfigGroup) -> (Seq<char>, Seq<(Seq<char>, Seq<char>, Option<Seq<char>>)>) {
    (g.title@, g.rows@.map_values(|r: ConfigRow| row_view(r)))
}

/// How a flag is written.
pub open spec fn bool_text(b: bool) -> Seq<char> {
    if b {
        "true"@
    } else {
        "false"@
    }
}

/// A list joined with " | ".
pub open spec fn bar_list(v: Vec<String>) -> Seq<char> {
    join_seqs(views(v@), " | "@)
}

pub open spec fn path_row(label: Seq<char>, value: Seq<char>) -> (Seq<char>, Seq<char>, Option<Seq<char>>) {
    (label, value, Some("conf.path"@))
}

pub open spec fn text_row(label: Seq<char>, value: Seq<char>) -> (Seq<char>, Seq<char>, Option<Seq<char>>) {
    (label, value, None)
}

/// The groups of the configuration dialog, in order.
pub open spec fn config_groups_spec(c: PacmanConfig) -> Seq<
    (Seq<char>, Seq<(Seq<char>, Seq<char>, Option<Seq<char>>)>),
> {
    seq![
        (
            "Paths"@,
            seq![
                path_row("RootDir"@, c.root_dir@),
                path_row("DBPath"@, c.db_path@),
                path_row("CacheDir"@, join_seqs(views(c.cache_dir@), "\n"@)),
                path_row("LogFile"@, c.log_file@),
                path_row("GPGDir"@, c.gpg_dir@),
                path_row("HookDir"@, join_seqs(views(c.hook_dir@), "\n"@)),
            ],
        ),
        (
            "Download"@,
            seq![
                text_row("XferCommand"@, c.xfer_command@),
                text_row("ParallelDownloads"@, decimal(c.parallel_downloads as nat)),
                text_row("DisableDownloadTimeout"@, bool_text(c.disable_download_timeout)),
                text_row(
                    "DownloadUser"@,
                    match c.download_user {
                        Some(u) => u@,
                        None => "None"@,
                    },
                ),
                text_row("Architecture"@, bar_list(c.architecture)),
            ],
        ),
        (
            "Sandbox"@,
            seq![
                text_row("DisableSandBox"@, bool_text(c.disable_sandbox)),
                text_row("DisableSandBoxFilesystem"@, bool_text(c.disable_sandbox_filesystem)),
                text_row("DisableSandBoxSyscalls"@, bool_text(c.disable_sandbox_syscalls)),
            ],
        ),
        (
            "Packages"@,
            seq![
                text_row("HoldPkg"@, bar_list(c.hold_pkg)),
                text_row("IgnorePkg"@, bar_list(c.ignore_pkg)),
                text_row("IgnoreGroup"@, bar_list(c.ignore_group)),
                text_row("NoUpgrade"@, bar_list(c.no_upgrade)),
                text_row("NoExtract"@, bar_list(c.no_extract)),
            ],
        ),
        (
            "Miscellaneous"@,
            seq![
                text_row("UseSyslog"@, bool_text(c.use_syslog)),
                text_row("Color"@, bool_text(c.color)),
                text_row("CheckSpace"@, bool_text(c.check_space)),
                text_row("CleanMethod"@, bar_list(c.clean_method)),
                text_row("VerbosePkgLists"@, bool_text(c.verbose_pkg_lists)),
                text_row("ILoveCandy"@, bool_text(c.chomp)),
            ],
        ),
        (
            "Signature Levels"@,
            seq![
                text_row("SigLevel"@, bar_list(c.sig_level)),
                text_row("LocalFileSigLevel"@, bar_list(c.local_file_sig_level)),
                text_row("RemoteFileSigLevel"@, bar_list(c.remote_file_sig_level)),
            ],
        ),
    ]
}

fn text_of(s: &str) -> (r: String)
    ensures
        r@ == s@,
{
    let mut t = String::new();
    push_str(&mut t, s);
    t
}

fn bool_string(b: bool) -> (r: String)
    ensures
        r@ == bool_text(b),
{
    if b {
        text_of("true")
    } else {
        text_of("false")
    }
}

fn path_row_of(label: &str, value: String) -> (r: ConfigRow)
    ensures
        row_view(r) == path_row(label@, value@),
{
    ConfigRow { label: text_of(label), value, action: Some(text_of("conf.path")) }
}

fn text_row_of(label: &str, value: String) -> (r: ConfigRow)
    ensures
        row_view(r) == text_row(label@, value@),
{
    ConfigRow { label: text_of(label), value, action: None }
}

fn group_of(title: &str, rows: Vec<ConfigRow>) -> (r: ConfigGroup)
    ensures
        group_view(r) == (title@, rows@.map_values(|r: ConfigRow| row_view(r))),
{
    ConfigGroup { title: text_of(title), rows }
}

/// The groups of option rows the configuration dialog shows.
pub fn config_groups(c: &PacmanConfig) -> (r: Vec<ConfigGroup>)
    ensures
        r@.map_values(|g: ConfigGroup| group_view(g)) == config_groups_spec(*c),
{
    let ghost spec = config_groups_spec(*c);
    let rows = vec![
        path_row_of("RootDir", text_of(c.root_dir.as_str())),
        path_row_of("DBPath", text_of(c.db_path.as_str())),
        path_row_of("CacheDir", join_strings(&c.cache_dir, "\n")),
        path_row_of("LogFile", text_of(c.log_file.as_str())),
        path_row_of("GPGDir", text_of(c.gpg_dir.as_str())),
        path_row_of("HookDir", join_strings(&c.hook_dir, "\n")),
    ];
    assert(rows@.map_values(|r: ConfigRow| row_view(r)) =~= spec[0].1);
    let paths = group_of("Paths", rows);
    let user = match &c.download_user {
        Some(u) => text_of(u.as_str()),
        None => text_of("None"),
    };
    let rows = vec![
        text_row_of("XferCommand", text_of(c.xfer_command.as_str())),
        text_row_of("ParallelDownloads", decimal_string(c.parallel_downloads)),
        text_row_of("DisableDownloadTimeout", bool_string(c.disable_download_timeout)),
        text_row_of("DownloadUser", user),
        text_row_of("Architecture", join_strings(&c.architecture, " | ")),
    ];
    assert(rows@.map_values(|r: ConfigRow| row_view(r)) =~= spec[1].1);
    let download = group_of("Download", rows);
    let rows = vec![
        text_row_of("DisableSandBox", bool_string(c.disable_sandbox)),
        text_row_of("DisableSandBoxFilesystem", bool_string(c.disable_sandbox_filesystem)),
        text_row_of("DisableSandBoxSyscalls", bool_string(c.disable_sandbox_syscalls)),
    ];
    assert(rows@.map_values(|r: ConfigRow| row_view(r)) =~= spec[2].1);
    let sandbox = group_of("Sandbox", rows);
    let rows = vec![
        text_row_of("HoldPkg", join_strings(&c.hold_pkg, " | ")),
        text_row_of("IgnorePkg", join_strings(&c.ignore_pkg, " | ")),
        text_row_of("IgnoreGroup", join_strings(&c.ignore_group, " | ")),
        text_row_of("NoUpgrade", join_strings(&c.no_upgrade, " | ")),
        text_row_of("NoExtract", join_strings(&c.no_extract, " | ")),
    ];
    assert(rows@.map_values(|r: ConfigRow| row_view(r)) =~= spec[3].1);
    let packages = group_of("Packages", rows);
    let rows = vec![
        text_row_of("UseSyslog", bool_string(c.use_syslog)),
        text_row_of("Color", bool_string(c.color)),
        text_row_of("CheckSpace", bool_string(c.check_space)),
        text_row_of("CleanMethod", join_strings(&c.clean_method, " | ")),
        text_row_of("VerbosePkgLists", bool_string(c.verbose_pkg_lists)),
        text_row_of("ILoveCandy", bool_string(c.chomp)),
    ];
    assert(rows@.map_values(|r: ConfigRow| row_view(r)) =~= spec[4].1);
    let misc = group_of("Miscellaneous", rows);
    let rows = vec![
        text_row_of("SigLevel", join_strings(&c.sig_level, " | ")),
        text_row_of("LocalFileSigLevel", join_strings(&c.local_file_sig_level, " | ")),
        text_row_of("RemoteFileSigLevel", join_strings(&c.remote_file_sig_level, " | ")),
    ];
    assert(rows@.map_values(|r: ConfigRow| row_view(r)) =~= spec[5].1);
    let sig = group_of("Signature Levels", rows);
    let r = vec![paths, download, sandbox, packages, misc, sig];
    assert(r@.map_values(|g: ConfigGroup| group_view(g)) =~= spec);
    r
}

/// Whether a row can be activated: it has an action and a value.
pub fn row_activatable(row: &ConfigRow) -> (r: bool)
    ensures
        r == (row.action.is_some() && row.value@.len() > 0),
{
    row.action.is_some() && crate::text::chars_of(row.value.as_str()).len() > 0
}

} // verus!
