//! Backup files of installed packages: their status against the packaged
//! version, filtering and the dialog's labels and actions.
use vstd::prelude::*;

use crate::text::{
    contains_ignore_ascii_case, contains_nocase, utf8, push_str, decimal, decimal_string,
    text_eq, lemma_contains_self,
};
use crate::search::plural;

verus! {

//------------------------------------------------------------------------------
// STRUCT: PkgBackup
//------------------------------------------------------------------------------
/// A backup file of a package and the MD5 sum it was installed with.
#[derive(Debug)]
pub struct PkgBackup {
    pub path: String,
    pub hash: String,
}

//------------------------------------------------------------------------------
// ENUM: BackupStatus
//------------------------------------------------------------------------------
/// How a backup file compares with the packaged one; `All` is the filter
/// that lets every file through.
#[derive(Clone, Copy, Debug, PartialEq, Eq, Structural)]
pub enum BackupStatus {
    All,
    Modified,
    Locked,
    Unmodified,
}

/// The lower-case word of a status.
pub open spec fn status_word(s: BackupStatus) -> Seq<char> {
    match s {
        BackupStatus::All => "all"@,
        BackupStatus::Modified => "modified"@,
        BackupStatus::Locked => "access denied"@,
        BackupStatus::Unmodified => "unmodified"@,
    }
}

/// The status of a file from its current MD5 sum (none when it cannot be
/// read) and the packaged one.
pub open spec fn status_of(file_hash: Option<Seq<char>>, hash: Seq<char>) -> BackupStatus {
    match file_hash {
        None => BackupStatus::Locked,
        Some(h) => if h == hash {
            BackupStatus::Unmodified
        } else {
            BackupStatus::Modified
        },
    }
}

/// A backup file whose current sum is the packaged one is unmodified, one
/// whose sum differs is modified, and one that cannot be read is locked.
pub proof fn law_backup_status(h: Seq<char>, g: Seq<char>)
    ensures
        status_of(Some(h), h) == BackupStatus::Unmodified,
        h != g ==> status_of(Some(h), g) == BackupStatus::Modified,
        status_of(None, g) == BackupStatus::Locked,
{
}

impl Default for BackupStatus {
    fn default() -> (r: Self)
        ensures
            r == BackupStatus::Unmodified,
    {
        BackupStatus::Unmodified
    }
}

impl BackupStatus {
    /// The lower-case word of the status.
    pub fn word(self) -> (r: &'static str)
        ensures
            r@ == status_word(self),
    {
        match self {
            BackupStatus::All => "all",
            BackupStatus::Modified => "modified",
            BackupStatus::Locked => "access denied",
            BackupStatus::Unmodified => "unmodified",
        }
    }

    /// Style classes of the status label: a warning for a modified file, an
    /// error for one that cannot be read.
    pub fn css_classes(self) -> (r: Vec<&'static str>)
        ensures
            self == BackupStatus::Modified ==> r@.map_values(|s: &str| s@) == seq![
                "tag"@,
                "warning"@,
            ],
            self == BackupStatus::Locked ==> r@.map_values(|s: &str| s@) == seq!["tag"@, "error"@],
            self != BackupStatus::Modified && self != BackupStatus::Locked ==> r@.len() == 0,
    {
        let mut v: Vec<&'static str> = Vec::new();
        match self {
            BackupStatus::Modified => {
                v.push("tag");
                v.push("warning");
            },
            BackupStatus::Locked => {
                v.push("tag");
                v.push("error");
            },
            _ => {},
        }
        v
    }

    /// The status word for a modified or unreadable file, else empty.
    pub fn text(self) -> (r: String)
        ensures
            (self == BackupStatus::Modified || self == BackupStatus::Locked) ==> r@ == status_word(
                self,
            ),
            !(self == BackupStatus::Modified || self == BackupStatus::Locked) ==> r@.len() == 0,
    {
        let mut s = String::new();
        if self == BackupStatus::Modified || self == BackupStatus::Locked {
            push_str(&mut s, self.word());
        }
        s
    }
}

/// The status of a backup file from its current MD5 sum (`None` when the
/// file cannot be read) and the packaged one.
pub fn backup_status(file_hash: Option<&String>, hash: &String) -> (r: BackupStatus)
    ensures
        r == status_of(
            match file_hash {
                Some(h) => Some(h@),
                None => None,
            },
            hash@,
        ),
{
    match file_hash {
        None => BackupStatus::Locked,
        Some(h) => if text_eq(h.as_str(), hash.as_str()) {
            BackupStatus::Unmodified
        } else {
            BackupStatus::Modified
        },
    }
}

//------------------------------------------------------------------------------
// STRUCT: BackupObject
//------------------------------------------------------------------------------
/// A backup file of an installed package, with its status.
#[derive(Debug)]
pub struct BackupObject {
    pub path: String,
    pub hash: String,
    pub package: String,
    pub status: BackupStatus,
}

impl BackupObject {
    /// A backup file of `package` whose current MD5 sum is `file_hash`
    /// (`None` when it cannot be read).
    pub fn new(backup: PkgBackup, package: &str, file_hash: Option<&String>) -> (r: Self)
        ensures
            r.path == backup.path,
            r.hash == backup.hash,
            r.package@ == package@,
            r.status == status_of(
                match file_hash {
                    Some(h) => Some(h@),
                    None => None,
                },
                backup.hash@,
            ),
    {
        let status = backup_status(file_hash, &backup.hash);
        let mut p = String::new();
        push_str(&mut p, package);
        BackupObject { path: backup.path, hash: backup.hash, package: p, status }
    }
}

//------------------------------------------------------------------------------
// ENUM: BackupSearchMode
//------------------------------------------------------------------------------
/// What the backup search looks at.
#[derive(Clone, Copy, Debug, PartialEq, Eq, Structural)]
pub enum BackupSearchMode {
    All,
    Packages,
    Files,
}

pub open spec fn next_backup_mode(m: BackupSearchMode) -> BackupSearchMode {
    match m {
        BackupSearchMode::All => BackupSearchMode::Packages,
        BackupSearchMode::Packages => BackupSearchMode::Files,
        BackupSearchMode::Files => BackupSearchMode::All,
    }
}

pub open spec fn previous_backup_mode(m: BackupSearchMode) -> BackupSearchMode {
    match m {
        BackupSearchMode::All => BackupSearchMode::Files,
        BackupSearchMode::Packages => BackupSearchMode::All,
        BackupSearchMode::Files => BackupSearchMode::Packages,
    }
}

impl Default for BackupSearchMode {
    fn default() -> (r: Self)
        ensures
            r == BackupSearchMode::All,
    {
        BackupSearchMode::All
    }
}

impl BackupSearchMode {
    /// The label of the mode.
    pub fn label(self) -> (r: &'static str)
        ensures
            self == BackupSearchMode::All ==> r@ == "All"@,
            self == BackupSearchMode::Packages ==> r@ == "Packages"@,
            self == BackupSearchMode::Files ==> r@ == "Files"@,
    {
        match self {
            BackupSearchMode::All => "All",
            BackupSearchMode::Packages => "Packages",
            BackupSearchMode::Files => "Files",
        }
    }

    pub fn next(self) -> (r: Self)
        ensures
            r == next_backup_mode(self),
    {
        match self {
            BackupSearchMode::All => BackupSearchMode::Packages,
            BackupSearchMode::Packages => BackupSearchMode::Files,
            BackupSearchMode::Files => BackupSearchMode::All,
        }
    }

    pub fn previous(self) -> (r: Self)
        ensures
            r == previous_backup_mode(self),
    {
        match self {
            BackupSearchMode::All => BackupSearchMode::Files,
            BackupSearchMode::Packages => BackupSearchMode::All,
            BackupSearchMode::Files => BackupSearchMode::Packages,
        }
    }
}

/// Cycling the backup search mode forward then back, or back then forward,
/// returns to the mode one started from.
pub proof fn law_backup_mode_cycle(m: BackupSearchMode)
    ensures
        previous_backup_mode(next_backup_mode(m)) == m,
        next_backup_mode(previous_backup_mode(m)) == m,
{
}

//------------------------------------------------------------------------------
// Filters
//------------------------------------------------------------------------------
/// Whether a backup file passes the search for `term` (trimmed and
/// lower-cased): every file when the term is empty, else the file whose
/// path and/or package (by the mode) holds the term up to ASCII case.
pub open spec fn backup_matches_spec(
    term: Seq<char>,
    mode: BackupSearchMode,
    path: Seq<char>,
    package: Seq<char>,
) -> bool {
    if utf8(term).len() == 0 {
        true
    } else {
        match mode {
            BackupSearchMode::All => contains_nocase(utf8(path), utf8(term)) || contains_nocase(
                utf8(package),
                utf8(term),
            ),
            BackupSearchMode::Packages => contains_nocase(utf8(package), utf8(term)),
            BackupSearchMode::Files => contains_nocase(utf8(path), utf8(term)),
        }
    }
}

pub fn backup_matches(term: &str, mode: BackupSearchMode, obj: &BackupObject) -> (r: bool)
    ensures
        r == backup_matches_spec(term@, mode, obj.path@, obj.package@),
{
    if term.as_bytes().len() == 0 {
        return true;
    }
    match mode {
        BackupSearchMode::All => contains_ignore_ascii_case(obj.path.as_str(), term)
            || contains_ignore_ascii_case(obj.package.as_str(), term),
        BackupSearchMode::Packages => contains_ignore_ascii_case(obj.package.as_str(), term),
        BackupSearchMode::Files => contains_ignore_ascii_case(obj.path.as_str(), term),
    }
}

/// The search modes of the backup window agree: "All" passes exactly the
/// files that "Packages" or "Files" passes; "Packages" looks at the package
/// alone and "Files" at the path alone; a file whose package (or path) is
/// the term itself passes the search by packages (or by files) and the
/// search by all; an empty term passes every file.
pub proof fn law_backup_modes(term: Seq<char>, path: Seq<char>, package: Seq<char>, other: Seq<char>)
    ensures
        backup_matches_spec(term, BackupSearchMode::All, path, package) == (backup_matches_spec(
            term,
            BackupSearchMode::Packages,
            path,
            package,
        ) || backup_matches_spec(term, BackupSearchMode::Files, path, package)),
        backup_matches_spec(term, BackupSearchMode::Packages, path, package) == backup_matches_spec(
            term,
            BackupSearchMode::Packages,
            other,
            package,
        ),
        backup_matches_spec(term, BackupSearchMode::Files, path, package) == backup_matches_spec(
            term,
            BackupSearchMode::Files,
            path,
            other,
        ),
        package == term ==> backup_matches_spec(term, BackupSearchMode::Packages, path, package)
            && backup_matches_spec(term, BackupSearchMode::All, path, package),
        path == term ==> backup_matches_spec(term, BackupSearchMode::Files, path, package)
            && backup_matches_spec(term, BackupSearchMode::All, path, package),
        utf8(term).len() == 0 ==> forall|m: BackupSearchMode| backup_matches_spec(term, m, path, package),
{
    lemma_contains_self(utf8(term));
}

/// Whether a backup file passes the status filter.
pub fn status_filter_matches(filter: BackupStatus, obj: &BackupObject) -> (r: bool)
    ensures
        r == (filter == BackupStatus::All || obj.status == filter),
{
    if filter == BackupStatus::All {
        true
    } else {
        obj.status == filter
    }
}

//------------------------------------------------------------------------------
// Actions
//------------------------------------------------------------------------------
/// Which backup actions are enabled for the selected file (none selected
/// counts as an unreadable file): comparing needs the comparison tools
/// and a modified file; opening needs a readable file.
pub fn backup_actions(can_compare: bool, selected: Option<BackupStatus>) -> (r: (bool, bool))
    ensures
        r.0 == (can_compare && selected == Some(BackupStatus::Modified)),
        r.1 == (selected.is_some() && selected != Some(BackupStatus::Locked)),
{
    let status = match selected {
        Some(s) => s,
        None => BackupStatus::Locked,
    };
    (can_compare && status == BackupStatus::Modified, status != BackupStatus::Locked)
}

//------------------------------------------------------------------------------
// Sections and labels
//------------------------------------------------------------------------------
/// The number of runs of equal neighbouring keys (the sections of a list
/// sorted by key).
pub open spec fn run_count(keys: Seq<Seq<char>>) -> nat
    decreases keys.len(),
{
    if keys.len() == 0 {
        0
    } else if keys.len() == 1 {
        1
    } else {
        run_count(keys.drop_last()) + if keys.last() != keys[keys.len() - 2] {
            1nat
        } else {
            0nat
        }
    }
}

proof fn lemma_run_count_same(keys: Seq<Seq<char>>)
    requires
        keys.len() > 0,
        forall|i: int| 0 <= i < keys.len() ==> #[trigger] keys[i] == keys[0],
    ensures
        run_count(keys) == 1,
    decreases keys.len(),
{
    if keys.len() > 1 {
        assert(keys.drop_last()[0] == keys[0]);
        lemma_run_count_same(keys.drop_last());
        assert(keys[keys.len() - 2] == keys[0]);
    }
}

proof fn lemma_run_count_distinct(keys: Seq<Seq<char>>)
    requires
        forall|i: int| 0 < i < keys.len() ==> #[trigger] keys[i] != keys[i - 1],
    ensures
        run_count(keys) == keys.len(),
    decreases keys.len(),
{
    if keys.len() > 1 {
        let d = keys.drop_last();
        assert forall|i: int| 0 < i < d.len() implies #[trigger] d[i] != d[i - 1] by {
            assert(d[i] == keys[i] && d[i - 1] == keys[i - 1]);
        }
        lemma_run_count_distinct(d);
        assert(keys[keys.len() - 1] != keys[keys.len() - 2]);
    }
}

/// Sections of a sorted list: a list of one key over and over is one
/// section, and a list whose neighbours all differ has one section per
/// entry; appending a key equal to the last adds no section and a
/// different one adds one.
pub proof fn law_sections(keys: Seq<Seq<char>>, x: Seq<char>)
    ensures
        (keys.len() > 0 && forall|i: int| 0 <= i < keys.len() ==> #[trigger] keys[i] == keys[0])
            ==> run_count(keys) == 1,
        (forall|i: int| 0 < i < keys.len() ==> #[trigger] keys[i] != keys[i - 1]) ==> run_count(keys)
            == keys.len(),
        keys.len() > 0 ==> run_count(keys.push(x)) == run_count(keys) + if x == keys.last() {
            0nat
        } else {
            1nat
        },
{
    if keys.len() > 0 && forall|i: int| 0 <= i < keys.len() ==> #[trigger] keys[i] == keys[0] {
        lemma_run_count_same(keys);
    }
    if forall|i: int| 0 < i < keys.len() ==> #[trigger] keys[i] != keys[i - 1] {
        lemma_run_count_distinct(keys);
    }
    assert(keys.push(x).drop_last() == keys);
}

/// Counts the runs of equal neighbouring strings.
pub fn count_sections(keys: &Vec<String>) -> (r: u64)
    requires
        keys@.len() <= u64::MAX,
    ensures
        r as nat == run_count(keys@.map_values(|s: String| s@)),
{
    let ghost v = keys@.map_values(|s: String| s@);
    let mut n: u64 = 0;
    let mut i: usize = 0;
    while i < keys.len()
        invariant
            keys@.len() <= u64::MAX,
            v == keys@.map_values(|s: String| s@),
            i <= keys@.len(),
            n as nat == run_count(v.take(i as int)),
            n <= i,
        decreases keys@.len() - i,
    {
        assert(v.take(i + 1).drop_last() == v.take(i as int));
        if i == 0 {
            n = 1;
        } else if !text_eq(keys[i].as_str(), keys[i - 1].as_str()) {
            n = n + 1;
        }
        i = i + 1;
    }
    assert(v.take(keys@.len() as int) == v);
    n
}

/// "N file(s) in M package(s)".
pub open spec fn files_in_packages_spec(files: nat, packages: nat) -> Seq<char> {
    decimal(files) + " file"@ + plural(files) + " in "@ + decimal(packages) + " package"@ + plural(
        packages,
    )
}

pub fn files_in_packages_label(files: u64, packages: u64) -> (r: String)
    ensures
        r@ == files_in_packages_spec(files as nat, packages as nat),
{
    let mut s = decimal_string(files);
    push_str(&mut s, " file");
    push_str(&mut s, if files == 1 { "" } else { "s" });
    push_str(&mut s, " in ");
    let p = decimal_string(packages);
    push_str(&mut s, p.as_str());
    push_str(&mut s, " package");
    push_str(&mut s, if packages == 1 { "" } else { "s" });
    s
}

/// "N files in M package(s)", the footer of the backup window, which keeps
/// the plural for files.
pub open spec fn backup_window_label_spec(files: nat, packages: nat) -> Seq<char> {
    decimal(files) + " files in "@ + decimal(packages) + " package"@ + plural(packages)
}

pub fn backup_window_label(files: u64, packages: u64) -> (r: String)
    ensures
        r@ == backup_window_label_spec(files as nat, packages as nat),
{
    let mut s = decimal_string(files);
    push_str(&mut s, " files in ");
    let p = decimal_string(packages);
    push_str(&mut s, p.as_str());
    push_str(&mut s, " package");
    push_str(&mut s, if packages == 1 { "" } else { "s" });
    s
}

/// The line the backup copy in the details window gives: `path (status)`.
pub fn backup_line(obj: &BackupObject) -> (r: String)
    ensures
        (obj.status == BackupStatus::Modified || obj.status == BackupStatus::Locked) ==> r@
            == obj.path@ + " ("@ + status_word(obj.status) + ")"@,
        !(obj.status == BackupStatus::Modified || obj.status == BackupStatus::Locked) ==> r@
            == obj.path@ + " ("@ + ")"@,
{
    let mut s = String::new();
    push_str(&mut s, obj.path.as_str());
    push_str(&mut s, " (");
    let t = obj.status.text();
    push_str(&mut s, t.as_str());
    push_str(&mut s, ")");
    s
}


//------------------------------------------------------------------------------
// Copying
//------------------------------------------------------------------------------
/// The status text of a file as the copies show it: the word for a
/// modified or unreadable file, else nothing.
pub open spec fn status_text_spec(s: BackupStatus) -> Seq<char> {
    if s == BackupStatus::Modified || s == BackupStatus::Locked {
        status_word(s)
    } else {
        Seq::empty()
    }
}

pub open spec fn backup_view(b: BackupObject) -> (Seq<char>, Seq<char>, Seq<char>) {
    (b.package@, b.path@, status_text_spec(b.status))
}

/// The copied table after the files `s` (package, path, status text), and
/// the package of the last heading: a heading row comes before each file
/// whose package differs from that of the heading before it (the first
/// heading is the empty package).
pub open spec fn backup_copy_state(s: Seq<(Seq<char>, Seq<char>, Seq<char>)>) -> (
    Seq<char>,
    Seq<char>,
)
    decreases s.len(),
{
    if s.len() == 0 {
        (Seq::empty(), Seq::empty())
    } else {
        let st = backup_copy_state(s.drop_last());
        let e = s.last();
        let t = if e.0 != st.1 {
            st.0 + "|**"@ + e.0 + "**||\n"@
        } else {
            st.0
        };
        (t + "|"@ + e.1 + "|"@ + e.2 + "|\n"@, e.0)
    }
}

/// The Markdown table of the backup dialog's copy.
pub fn backup_markdown(files: &Vec<BackupObject>) -> (r: String)
    ensures
        r@ == "## Backup Files\n|Filename|Status|\n|---|---|\n"@ + backup_copy_state(
            files@.map_values(|b: BackupObject| backup_view(b)),
        ).0,
{
    let ghost v = files@.map_values(|b: BackupObject| backup_view(b));
    let mut out = String::new();
    push_str(&mut out, "## Backup Files\n|Filename|Status|\n|---|---|\n");
    let ghost head = out@;
    let mut package = String::new();
    let mut i: usize = 0;
    while i < files.len()
        invariant
            v == files@.map_values(|b: BackupObject| backup_view(b)),
            i <= files@.len(),
            out@ == head + backup_copy_state(v.take(i as int)).0,
            package@ == backup_copy_state(v.take(i as int)).1,
        decreases files@.len() - i,
    {
        assert(v.take(i + 1).drop_last() == v.take(i as int));
        let b = &files[i];
        if !text_eq(b.package.as_str(), package.as_str()) {
            push_str(&mut out, "|**");
            push_str(&mut out, b.package.as_str());
            push_str(&mut out, "**||\n");
            package = b.package.clone();
        }
        push_str(&mut out, "|");
        push_str(&mut out, b.path.as_str());
        push_str(&mut out, "|");
        let t = b.status.text();
        push_str(&mut out, t.as_str());
        push_str(&mut out, "|\n");
        i = i + 1;
    }
    assert(v.take(files@.len() as int) == v);
    out
}

/// The lines of the backup tab's copy: `path|status` each.
pub open spec fn tab_lines(v: Seq<BackupObject>) -> Seq<char>
    decreases v.len(),
{
    if v.len() == 0 {
        Seq::empty()
    } else {
        tab_lines(v.drop_last()) + v.last().path@ + "|"@ + status_text_spec(v.last().status) + "\n"@
    }
}

/// The copy of the backup tab of a package.
pub fn backup_tab_markdown(pkg_name: &str, files: &Vec<BackupObject>) -> (r: String)
    ensures
        r@ == "## "@ + pkg_name@ + "\n|Backup Files|Status|\n|---|---|\n"@ + tab_lines(files@),
{
    let mut out = String::new();
    push_str(&mut out, "## ");
    push_str(&mut out, pkg_name);
    push_str(&mut out, "\n|Backup Files|Status|\n|---|---|\n");
    let ghost head = out@;
    let mut i: usize = 0;
    while i < files.len()
        invariant
            i <= files@.len(),
            out@ == head + tab_lines(files@.take(i as int)),
        decreases files@.len() - i,
    {
        assert(files@.take(i + 1).drop_last() == files@.take(i as int));
        let b = &files[i];
        push_str(&mut out, b.path.as_str());
        push_str(&mut out, "|");
        let t = b.status.text();
        push_str(&mut out, t.as_str());
        push_str(&mut out, "\n");
        i = i + 1;
    }
    assert(files@.take(files@.len() as int) == files@);
    out
}

} // verus!
