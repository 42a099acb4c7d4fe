//! Package statistics per repository.
use vstd::prelude::*;

use crate::pkg_object::{format_size, size_text};
use crate::text::{push_str, decimal, decimal_string, text_eq};

verus! {

/// The text that `heck::ToTitleCase::to_title_case` gives.
pub uninterp spec fn title_case(s: Seq<char>) -> Seq<char>;

/// Title-cases a word (`heck::ToTitleCase::to_title_case`).
///
/// Claimed of the outside code: the result depends on the text alone;
/// how it splits and capitalizes words is left unsaid and goes by the name
/// `title_case`.
#[verifier::external_body]
fn to_title_case(s: &str) -> (r: String)
    ensures
        r@ == title_case(s@),
{
    heck::ToTitleCase::to_title_case(s)
}

/// What the statistics read of a package: its repository, its status word
/// (empty when not installed) and its installed size.
#[derive(Debug)]
pub struct PkgSummary {
    pub repository: String,
    pub status: String,
    pub install_size: i64,
}

/// The statistics of one repository, or of all of them.
#[derive(Debug)]
pub struct RepoStats {
    pub repository: String,
    /// Installed size of its installed packages.
    pub size: i64,
    /// Number of its installed packages.
    pub installed: u64,
    /// Number of its packages.
    pub packages: u64,
}

/// Number of packages of `repo`.
pub open spec fn repo_packages(pkgs: Seq<PkgSummary>, repo: Seq<char>) -> nat
    decreases pkgs.len(),
{
    if pkgs.len() == 0 {
        0
    } else {
        repo_packages(pkgs.drop_last(), repo) + if pkgs.last().repository@ == repo {
            1nat
        } else {
            0nat
        }
    }
}

/// Number of installed packages of `repo`.
pub open spec fn repo_installed(pkgs: Seq<PkgSummary>, repo: Seq<char>) -> nat
    decreases pkgs.len(),
{
    if pkgs.len() == 0 {
        0
    } else {
        repo_installed(pkgs.drop_last(), repo) + if pkgs.last().repository@ == repo
            && pkgs.last().status@.len() > 0 {
            1nat
        } else {
            0nat
        }
    }
}

/// Installed size of the installed packages of `repo`.
pub open spec fn repo_size(pkgs: Seq<PkgSummary>, repo: Seq<char>) -> int
    decreases pkgs.len(),
{
    if pkgs.len() == 0 {
        0
    } else {
        repo_size(pkgs.drop_last(), repo) + if pkgs.last().repository@ == repo
            && pkgs.last().status@.len() > 0 {
            pkgs.last().install_size as int
        } else {
            0
        }
    }
}

/// Sums of the statistics over the repositories `repos`.
pub open spec fn total_packages(pkgs: Seq<PkgSummary>, repos: Seq<String>) -> nat
    decreases repos.len(),
{
    if repos.len() == 0 {
        0
    } else {
        total_packages(pkgs, repos.drop_last()) + repo_packages(pkgs, repos.last()@)
    }
}

pub open spec fn total_installed(pkgs: Seq<PkgSummary>, repos: Seq<String>) -> nat
    decreases repos.len(),
{
    if repos.len() == 0 {
        0
    } else {
        total_installed(pkgs, repos.drop_last()) + repo_installed(pkgs, repos.last()@)
    }
}

pub open spec fn total_size(pkgs: Seq<PkgSummary>, repos: Seq<String>) -> int
    decreases repos.len(),
{
    if repos.len() == 0 {
        0
    } else {
        total_size(pkgs, repos.drop_last()) + repo_size(pkgs, repos.last()@)
    }
}

/// A row holds the statistics of its repository.
pub open spec fn row_ok(pkgs: Seq<PkgSummary>, row: RepoStats) -> bool {
    &&& row.packages as nat == repo_packages(pkgs, row.repository@)
    &&& row.installed as nat == repo_installed(pkgs, row.repository@)
    &&& row.size as int == repo_size(pkgs, row.repository@)
}

/// The repositories of `repos` that have packages, in order.
pub open spec fn listed_repos(pkgs: Seq<PkgSummary>, repos: Seq<String>) -> Seq<Seq<char>>
    decreases repos.len(),
{
    if repos.len() == 0 {
        Seq::empty()
    } else if repo_packages(pkgs, repos.last()@) > 0 {
        listed_repos(pkgs, repos.drop_last()).push(repos.last()@)
    } else {
        listed_repos(pkgs, repos.drop_last())
    }
}

/// The sizes of a repository fit an `i64` as they are added up package
/// after package.
pub open spec fn repo_sizes_fit(pkgs: Seq<PkgSummary>, repo: Seq<char>) -> bool {
    forall|i: int|
        0 <= i <= pkgs.len() ==> i64::MIN <= #[trigger] repo_size(pkgs.take(i), repo) <= i64::MAX
}

/// The statistics fit their types: each repository's size as it is added
/// up, the total size as it is added up repository after repository, and
/// the counts.
pub open spec fn stats_fit(pkgs: Seq<PkgSummary>, repos: Seq<String>) -> bool {
    &&& forall|j: int| 0 <= j < repos.len() ==> repo_sizes_fit(pkgs, #[trigger] repos[j]@)
    &&& forall|j: int|
        0 <= j <= repos.len() ==> i64::MIN <= #[trigger] total_size(pkgs, repos.take(j)) <= i64::MAX
    &&& pkgs.len() <= u64::MAX
    &&& repos.len() * pkgs.len() <= u64::MAX
}

/// Sums of the statistics over repositories given by name.
pub open spec fn sum_packages(pkgs: Seq<PkgSummary>, names: Seq<Seq<char>>) -> nat
    decreases names.len(),
{
    if names.len() == 0 {
        0
    } else {
        sum_packages(pkgs, names.drop_last()) + repo_packages(pkgs, names.last())
    }
}

pub open spec fn sum_installed(pkgs: Seq<PkgSummary>, names: Seq<Seq<char>>) -> nat
    decreases names.len(),
{
    if names.len() == 0 {
        0
    } else {
        sum_installed(pkgs, names.drop_last()) + repo_installed(pkgs, names.last())
    }
}

pub open spec fn sum_size(pkgs: Seq<PkgSummary>, names: Seq<Seq<char>>) -> int
    decreases names.len(),
{
    if names.len() == 0 {
        0
    } else {
        sum_size(pkgs, names.drop_last()) + repo_size(pkgs, names.last())
    }
}

/// A repository without packages has nothing installed and no size.
proof fn lemma_empty_repo(pkgs: Seq<PkgSummary>, repo: Seq<char>)
    requires
        repo_packages(pkgs, repo) == 0,
    ensures
        repo_installed(pkgs, repo) == 0,
        repo_size(pkgs, repo) == 0,
    decreases pkgs.len(),
{
    if pkgs.len() > 0 {
        lemma_empty_repo(pkgs.drop_last(), repo);
    }
}

proof fn lemma_repo_uniform(pkgs: Seq<PkgSummary>, repo: Seq<char>, installed: bool)
    requires
        forall|i: int| 0 <= i < pkgs.len() ==> (#[trigger] pkgs[i]).repository@ == repo && (
        pkgs[i].status@.len() > 0) == installed,
    ensures
        repo_packages(pkgs, repo) == pkgs.len(),
        repo_installed(pkgs, repo) == if installed { pkgs.len() } else { 0 },
        !installed ==> repo_size(pkgs, repo) == 0,
    decreases pkgs.len(),
{
    if pkgs.len() > 0 {
        assert(pkgs.last() == pkgs[pkgs.len() - 1]);
        lemma_repo_uniform(pkgs.drop_last(), repo, installed);
    }
}

/// What the statistics of a repository count: its packages, and of them
/// the installed ones (those with a status) and their size; packages that
/// are not installed add to the count of packages only, packages of other
/// repositories add nothing, and no more packages are installed than there
/// are.
pub proof fn law_repo_counts(pkgs: Seq<PkgSummary>, repo: Seq<char>, p: PkgSummary)
    ensures
        repo_installed(pkgs, repo) <= repo_packages(pkgs, repo) <= pkgs.len(),
        p.repository@ != repo ==> repo_packages(pkgs.push(p), repo) == repo_packages(pkgs, repo)
            && repo_installed(pkgs.push(p), repo) == repo_installed(pkgs, repo) && repo_size(
            pkgs.push(p),
            repo,
        ) == repo_size(pkgs, repo),
        (forall|i: int| 0 <= i < pkgs.len() ==> (#[trigger] pkgs[i]).repository@ == repo
            && pkgs[i].status@.len() == 0) ==> repo_packages(pkgs, repo) == pkgs.len()
            && repo_installed(pkgs, repo) == 0 && repo_size(pkgs, repo) == 0,
        (forall|i: int| 0 <= i < pkgs.len() ==> (#[trigger] pkgs[i]).repository@ == repo
            && pkgs[i].status@.len() > 0) ==> repo_packages(pkgs, repo) == pkgs.len()
            && repo_installed(pkgs, repo) == pkgs.len(),
{
    lemma_repo_bounds(pkgs, repo);
    assert(pkgs.push(p).drop_last() == pkgs);
    if forall|i: int| 0 <= i < pkgs.len() ==> (#[trigger] pkgs[i]).repository@ == repo
        && pkgs[i].status@.len() == 0 {
        lemma_repo_uniform(pkgs, repo, false);
    }
    if forall|i: int| 0 <= i < pkgs.len() ==> (#[trigger] pkgs[i]).repository@ == repo
        && pkgs[i].status@.len() > 0 {
        lemma_repo_uniform(pkgs, repo, true);
    }
}

/// The "Total" row of the statistics is the sum of the rows shown: the
/// repositories left out have no packages, hence nothing installed and no
/// size.
pub proof fn law_total_is_sum_of_rows(pkgs: Seq<PkgSummary>, repos: Seq<String>)
    ensures
        sum_packages(pkgs, listed_repos(pkgs, repos)) == total_packages(pkgs, repos),
        sum_installed(pkgs, listed_repos(pkgs, repos)) == total_installed(pkgs, repos),
        sum_size(pkgs, listed_repos(pkgs, repos)) == total_size(pkgs, repos),
    decreases repos.len(),
{
    if repos.len() > 0 {
        law_total_is_sum_of_rows(pkgs, repos.drop_last());
        let last = repos.last()@;
        if repo_packages(pkgs, last) > 0 {
            let l = listed_repos(pkgs, repos.drop_last()).push(last);
            assert(l.drop_last() == listed_repos(pkgs, repos.drop_last()));
        } else {
            lemma_empty_repo(pkgs, last);
        }
    }
}

proof fn lemma_repo_bounds(pkgs: Seq<PkgSummary>, repo: Seq<char>)
    ensures
        repo_installed(pkgs, repo) <= repo_packages(pkgs, repo) <= pkgs.len(),
    decreases pkgs.len(),
{
    if pkgs.len() > 0 {
        lemma_repo_bounds(pkgs.drop_last(), repo);
    }
}

proof fn lemma_total_bounds(pkgs: Seq<PkgSummary>, repos: Seq<String>)
    ensures
        total_installed(pkgs, repos) <= total_packages(pkgs, repos) <= repos.len() * pkgs.len(),
    decreases repos.len(),
{
    if repos.len() > 0 {
        lemma_total_bounds(pkgs, repos.drop_last());
        lemma_repo_bounds(pkgs, repos.last()@);
        assert(repos.len() * pkgs.len() == (repos.len() - 1) * pkgs.len() + pkgs.len())
            by (nonlinear_arith);
    }
}

proof fn lemma_total_prefix(pkgs: Seq<PkgSummary>, repos: Seq<String>, i: int)
    requires
        0 <= i <= repos.len(),
    ensures
        total_packages(pkgs, repos.take(i)) <= total_packages(pkgs, repos),
        total_installed(pkgs, repos.take(i)) <= total_installed(pkgs, repos),
    decreases repos.len() - i,
{
    if i < repos.len() {
        lemma_total_prefix(pkgs, repos, i + 1);
        assert(repos.take(i + 1).drop_last() == repos.take(i));
        assert(repos.take(i + 1).last() == repos[i]);
        lemma_repo_bounds(pkgs, repos[i]@);
    } else {
        assert(repos.take(i) == repos);
    }
}

/// The statistics of one repository.
pub fn repo_stats(pkgs: &Vec<PkgSummary>, repo: &String) -> (r: RepoStats)
    requires
        repo_sizes_fit(pkgs@, repo@),
        pkgs@.len() <= u64::MAX,
    ensures
        r.repository@ == repo@,
        r.packages as nat == repo_packages(pkgs@, repo@),
        r.installed as nat == repo_installed(pkgs@, repo@),
        r.size as int == repo_size(pkgs@, repo@),
{
    let mut packages: u64 = 0;
    let mut installed: u64 = 0;
    let mut size: i64 = 0;
    let mut i: usize = 0;
    proof {
        lemma_repo_bounds(pkgs@, repo@);
    }
    while i < pkgs.len()
        invariant
            i <= pkgs@.len(),
            pkgs@.len() <= u64::MAX,
            repo_sizes_fit(pkgs@, repo@),
            packages as nat == repo_packages(pkgs@.take(i as int), repo@),
            installed as nat == repo_installed(pkgs@.take(i as int), repo@),
            size as int == repo_size(pkgs@.take(i as int), repo@),
        decreases pkgs@.len() - i,
    {
        let ghost t = pkgs@.take(i + 1);
        assert(t.drop_last() == pkgs@.take(i as int));
        assert(t.last() == pkgs@[i as int]);
        proof {
            lemma_repo_bounds(t, repo@);
            lemma_repo_bounds(pkgs@.take(i as int), repo@);
            assert(i64::MIN <= repo_size(pkgs@.take(i + 1), repo@) <= i64::MAX);
        }
        let p = &pkgs[i];
        if text_eq(p.repository.as_str(), repo.as_str()) {
            packages = packages + 1;
            if p.status.as_str().as_bytes().len() > 0 {
                proof {
                    vstd::utf8::encode_utf8_first_scalar(p.status@);
                }
                installed = installed + 1;
                size = size + p.install_size;
            } else {
                assert(p.status@.len() == 0);
            }
        }
        i = i + 1;
    }
    assert(pkgs@.take(pkgs@.len() as int) == pkgs@);
    let mut name = String::new();
    push_str(&mut name, repo.as_str());
    RepoStats { repository: name, size, installed, packages }
}

/// The statistics dialog's rows: one per repository of `repos` that has
/// packages, in order, then the totals over `repos` under "Total".
pub fn repository_stats(pkgs: &Vec<PkgSummary>, repos: &Vec<String>) -> (r: (
    Vec<RepoStats>,
    RepoStats,
))
    requires
        stats_fit(pkgs@, repos@),
    ensures
        r.0@.map_values(|s: RepoStats| s.repository@) == listed_repos(pkgs@, repos@),
        forall|k: int| 0 <= k < r.0@.len() ==> row_ok(pkgs@, #[trigger] r.0@[k]),
        r.1.repository@ == "Total"@,
        r.1.packages as nat == total_packages(pkgs@, repos@),
        r.1.installed as nat == total_installed(pkgs@, repos@),
        r.1.size as int == total_size(pkgs@, repos@),
{
    let mut rows: Vec<RepoStats> = Vec::new();
    let mut pkgs_total: u64 = 0;
    let mut inst_total: u64 = 0;
    let mut size_total: i64 = 0;
    let mut j: usize = 0;
    proof {
        lemma_total_bounds(pkgs@, repos@);
    }
    while j < repos.len()
        invariant
            j <= repos@.len(),
            stats_fit(pkgs@, repos@),
            total_installed(pkgs@, repos@) <= total_packages(pkgs@, repos@) <= repos@.len()
                * pkgs@.len(),
            pkgs_total as nat == total_packages(pkgs@, repos@.take(j as int)),
            inst_total as nat == total_installed(pkgs@, repos@.take(j as int)),
            size_total as int == total_size(pkgs@, repos@.take(j as int)),
            rows@.map_values(|s: RepoStats| s.repository@) == listed_repos(
                pkgs@,
                repos@.take(j as int),
            ),
            forall|k: int| 0 <= k < rows@.len() ==> row_ok(pkgs@, #[trigger] rows@[k]),
        decreases repos@.len() - j,
    {
        let ghost t = repos@.take(j + 1);
        assert(t.drop_last() == repos@.take(j as int));
        assert(t.last() == repos@[j as int]);
        proof {
            lemma_total_prefix(pkgs@, repos@, j + 1);
            lemma_total_bounds(pkgs@, repos@.take(j as int));
            lemma_repo_bounds(pkgs@, repos@[j as int]@);
            assert(repo_sizes_fit(pkgs@, repos@[j as int]@));
            assert(i64::MIN <= total_size(pkgs@, repos@.take(j + 1)) <= i64::MAX);
        }
        let stats = repo_stats(pkgs, &repos[j]);
        pkgs_total = pkgs_total + stats.packages;
        inst_total = inst_total + stats.installed;
        size_total = size_total + stats.size;
        if stats.packages > 0 {
            let ghost prev = rows@;
            let ghost st = stats;
            rows.push(stats);
            assert forall|k: int| 0 <= k < rows@.len() implies row_ok(pkgs@, #[trigger] rows@[k]) by {
                if k < prev.len() {
                    assert(rows@[k] == prev[k]);
                } else {
                    assert(rows@[k] == st);
                }
            }
            assert(rows@.map_values(|s: RepoStats| s.repository@) == prev.map_values(
                |s: RepoStats| s.repository@,
            ).push(repos@[j as int]@));
        }
        j = j + 1;
    }
    assert(repos@.take(repos@.len() as int) == repos@);
    let mut total = String::new();
    push_str(&mut total, "Total");
    (rows, RepoStats { repository: total, size: size_total, installed: inst_total, packages: pkgs_total })
}

//------------------------------------------------------------------------------
// Labels
//------------------------------------------------------------------------------
/// The labels of a statistics row: the repository's title ("AUR" for the
/// AUR, else title-cased), its size, "N installed" and "N pkgs".
#[derive(Debug)]
pub struct StatsLabels {
    pub title: String,
    pub size: String,
    pub installed: String,
    pub packages: String,
}

pub fn stats_labels(s: &RepoStats) -> (r: StatsLabels)
    ensures
        s.repository@ == "aur"@ ==> r.title@ == "AUR"@,
        s.repository@ != "aur"@ ==> r.title@ == title_case(s.repository@),
        r.size@ == size_text(s.size as int),
        r.installed@ == decimal(s.installed as nat) + " installed"@,
        r.packages@ == decimal(s.packages as nat) + " pkgs"@,
{
    let title = if text_eq(s.repository.as_str(), "aur") {
        let mut t = String::new();
        push_str(&mut t, "AUR");
        t
    } else {
        to_title_case(s.repository.as_str())
    };
    let mut installed = decimal_string(s.installed);
    push_str(&mut installed, " installed");
    let mut packages = decimal_string(s.packages);
    push_str(&mut packages, " pkgs");
    StatsLabels { title, size: format_size(s.size), installed, packages }
}

} // verus!
