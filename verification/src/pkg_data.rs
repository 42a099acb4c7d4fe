//! Package data read from the pacman databases or from the AUR.
use vstd::prelude::*;

use crate::flags::{PkgFlags, PkgValidation, validation_mask};
use crate::text::{views, sorted_texts, push_str, decimal, decimal_string};

verus! {

/// Sorts strings in ascending order (`itertools::Itertools::sorted_unstable`).
///
/// Claimed of the outside code: the result holds the same strings, each as
/// many times, in ascending order of `str`.
#[verifier::external_body]
fn sorted_unstable(v: Vec<String>) -> (r: Vec<String>)
    ensures
        r@.to_multiset() == v@.to_multiset(),
        sorted_texts(views(r@)),
{
    itertools::Itertools::sorted_unstable(v.into_iter()).collect()
}

//------------------------------------------------------------------------------
// ENUM: PkgReason
//------------------------------------------------------------------------------
/// Why a package was installed.
#[derive(Clone, Copy, Debug, PartialEq, Eq, Structural)]
pub enum PkgReason {
    Explicit,
    Depend,
}

//------------------------------------------------------------------------------
// STRUCT: AlpmPackageInfo
//------------------------------------------------------------------------------
/// What the library reads of a package of a pacman database.
#[derive(Debug)]
pub struct AlpmPackageInfo {
    pub reason: PkgReason,
    /// Whether some installed package requires this one.
    pub has_required_by: bool,
    /// Whether some installed package optionally requires this one.
    pub has_optional_for: bool,
    pub base: Option<String>,
    pub name: String,
    pub version: String,
    pub description: Option<String>,
    pub url: Option<String>,
    pub licenses: Vec<String>,
    pub groups: Vec<String>,
    pub depends: Vec<String>,
    pub optdepends: Vec<String>,
    pub provides: Vec<String>,
    pub conflicts: Vec<String>,
    pub replaces: Vec<String>,
    pub architecture: Option<String>,
    pub packager: Option<String>,
    pub build_date: i64,
    pub install_date: Option<i64>,
    pub download_size: i64,
    pub install_size: i64,
    pub has_scriptlet: bool,
    pub validation_bits: u32,
}

//------------------------------------------------------------------------------
// STRUCT: AurPackageInfo
//------------------------------------------------------------------------------
/// What the library reads of a package of the AUR.
#[derive(Debug)]
pub struct AurPackageInfo {
    pub name: String,
    pub version: String,
    pub description: Option<String>,
    /// The popularity score, already rendered with two decimals.
    pub popularity_text: String,
    pub num_votes: u32,
    pub out_of_date: Option<i64>,
    pub url: Option<String>,
    pub license: Vec<String>,
    pub groups: Vec<String>,
    pub depends: Vec<String>,
    pub opt_depends: Vec<String>,
    pub make_depends: Vec<String>,
    pub provides: Vec<String>,
    pub conflicts: Vec<String>,
    pub replaces: Vec<String>,
    pub maintainer: Option<String>,
    pub last_modified: i64,
}

//------------------------------------------------------------------------------
// STRUCT: PkgData
//------------------------------------------------------------------------------
#[derive(Debug)]
pub struct PkgData {
    pub flags: PkgFlags,
    pub is_installed: bool,
    pub base: Option<String>,
    pub name: String,
    pub version: String,
    pub description: Option<String>,
    pub popularity: Option<String>,
    pub out_of_date: Option<i64>,
    pub url: Option<String>,
    pub licenses: Vec<String>,
    pub repository: String,
    pub groups: Vec<String>,
    pub depends: Vec<String>,
    pub optdepends: Vec<String>,
    pub makedepends: Vec<String>,
    pub provides: Vec<String>,
    pub conflicts: Vec<String>,
    pub replaces: Vec<String>,
    pub architecture: Option<String>,
    pub packager: Option<String>,
    pub build_date: i64,
    pub install_date: Option<i64>,
    pub download_size: i64,
    pub install_size: i64,
    pub has_script: Option<String>,
    pub validation: PkgValidation,
}

/// `b` holds the strings of `a`, each as many times, in ascending order.
pub open spec fn is_sorted_copy(a: Seq<String>, b: Seq<String>) -> bool {
    &&& b.to_multiset() == a.to_multiset()
    &&& sorted_texts(views(b))
}

/// The status bits of a package: for an installed one, from why it was
/// installed and whether other packages need it.
pub open spec fn local_flag_bits(
    is_local: bool,
    reason: PkgReason,
    has_required_by: bool,
    has_optional_for: bool,
) -> u32 {
    if !is_local {
        16
    } else if reason == PkgReason::Explicit {
        1
    } else if has_required_by {
        2
    } else if has_optional_for {
        4
    } else {
        8
    }
}

/// The popularity text of an AUR package: score, then the number of votes.
pub open spec fn popularity_spec(score: Seq<char>, votes: nat) -> Seq<char> {
    score + " ("@ + decimal(votes) + " vote"@ + (if votes == 1 { ""@ } else { "s"@ }) + ")"@
}

/// The status flags of a package.
pub fn package_flags(
    is_local: bool,
    reason: PkgReason,
    has_required_by: bool,
    has_optional_for: bool,
) -> (r: PkgFlags)
    ensures
        r.spec_bits() == local_flag_bits(is_local, reason, has_required_by, has_optional_for),
{
    if is_local {
        match reason {
            PkgReason::Explicit => PkgFlags::explicit(),
            PkgReason::Depend => {
                if has_required_by {
                    PkgFlags::dependency()
                } else if has_optional_for {
                    PkgFlags::optional()
                } else {
                    PkgFlags::orphan()
                }
            },
        }
    } else {
        PkgFlags::none()
    }
}

impl PkgData {
    //---------------------------------------
    // Alpm constructor
    //---------------------------------------
    /// Package data of a pacman database package; lists come sorted.
    pub fn from_alpm(pkg: AlpmPackageInfo, is_local: bool, repository: &str) -> (r: Self)
        ensures
            r.flags.spec_bits() == local_flag_bits(
                is_local,
                pkg.reason,
                pkg.has_required_by,
                pkg.has_optional_for,
            ),
            r.is_installed == is_local,
            r.base == pkg.base,
            r.name == pkg.name,
            r.version == pkg.version,
            r.description == pkg.description,
            r.popularity.is_none(),
            r.out_of_date.is_none(),
            r.url == pkg.url,
            is_sorted_copy(pkg.licenses@, r.licenses@),
            r.repository@ == repository@,
            is_sorted_copy(pkg.groups@, r.groups@),
            is_sorted_copy(pkg.depends@, r.depends@),
            is_sorted_copy(pkg.optdepends@, r.optdepends@),
            r.makedepends@.len() == 0,
            is_sorted_copy(pkg.provides@, r.provides@),
            is_sorted_copy(pkg.conflicts@, r.conflicts@),
            is_sorted_copy(pkg.replaces@, r.replaces@),
            r.architecture == pkg.architecture,
            r.packager == pkg.packager,
            r.build_date == pkg.build_date,
            r.install_date == pkg.install_date,
            r.download_size == pkg.download_size,
            r.install_size == pkg.install_size,
            pkg.has_scriptlet ==> r.has_script.is_some() && r.has_script.unwrap()@ == "Yes"@,
            !pkg.has_scriptlet ==> r.has_script.is_none(),
            r.validation.spec_bits() == pkg.validation_bits & validation_mask(),
    {
        let flags = package_flags(is_local, pkg.reason, pkg.has_required_by, pkg.has_optional_for);
        let mut repo = String::new();
        push_str(&mut repo, repository);
        let has_script = if pkg.has_scriptlet {
            let mut yes = String::new();
            push_str(&mut yes, "Yes");
            Some(yes)
        } else {
            None
        };
        PkgData {
            flags,
            is_installed: is_local,
            base: pkg.base,
            name: pkg.name,
            version: pkg.version,
            description: pkg.description,
            popularity: None,
            out_of_date: None,
            url: pkg.url,
            licenses: sorted_unstable(pkg.licenses),
            repository: repo,
            groups: sorted_unstable(pkg.groups),
            depends: sorted_unstable(pkg.depends),
            optdepends: sorted_unstable(pkg.optdepends),
            makedepends: Vec::new(),
            provides: sorted_unstable(pkg.provides),
            conflicts: sorted_unstable(pkg.conflicts),
            replaces: sorted_unstable(pkg.replaces),
            architecture: pkg.architecture,
            packager: pkg.packager,
            build_date: pkg.build_date,
            install_date: pkg.install_date,
            download_size: pkg.download_size,
            install_size: pkg.install_size,
            has_script,
            validation: PkgValidation::from_bits_truncate(pkg.validation_bits),
        }
    }

    //---------------------------------------
    // AUR constructor
    //---------------------------------------
    /// Package data of an AUR package; lists come sorted.
    pub fn from_aur(pkg: AurPackageInfo) -> (r: Self)
        ensures
            r.flags.spec_bits() == 16,
            !r.is_installed,
            r.base.is_none(),
            r.name == pkg.name,
            r.version == pkg.version,
            r.description == pkg.description,
            r.popularity.is_some(),
            r.popularity.unwrap()@ == popularity_spec(pkg.popularity_text@, pkg.num_votes as nat),
            r.out_of_date == pkg.out_of_date,
            r.url == pkg.url,
            is_sorted_copy(pkg.license@, r.licenses@),
            r.repository@ == "aur"@,
            is_sorted_copy(pkg.groups@, r.groups@),
            is_sorted_copy(pkg.depends@, r.depends@),
            is_sorted_copy(pkg.opt_depends@, r.optdepends@),
            is_sorted_copy(pkg.make_depends@, r.makedepends@),
            is_sorted_copy(pkg.provides@, r.provides@),
            is_sorted_copy(pkg.conflicts@, r.conflicts@),
            is_sorted_copy(pkg.replaces@, r.replaces@),
            r.architecture.is_none(),
            r.packager == pkg.maintainer,
            r.build_date == pkg.last_modified,
            r.install_date.is_none(),
            r.download_size == 0,
            r.install_size == 0,
            r.has_script.is_none(),
            r.validation.spec_bits() == 1,
    {
        let mut popularity = String::new();
        push_str(&mut popularity, pkg.popularity_text.as_str());
        push_str(&mut popularity, " (");
        let votes = decimal_string(pkg.num_votes as u64);
        push_str(&mut popularity, votes.as_str());
        push_str(&mut popularity, " vote");
        if pkg.num_votes == 1 {
            push_str(&mut popularity, "");
        } else {
            push_str(&mut popularity, "s");
        }
        push_str(&mut popularity, ")");
        let mut repo = String::new();
        push_str(&mut repo, "aur");
        PkgData {
            flags: PkgFlags::none(),
            is_installed: false,
            base: None,
            name: pkg.name,
            version: pkg.version,
            description: pkg.description,
            popularity: Some(popularity),
            out_of_date: pkg.out_of_date,
            url: pkg.url,
            licenses: sorted_unstable(pkg.license),
            repository: repo,
            groups: sorted_unstable(pkg.groups),
            depends: sorted_unstable(pkg.depends),
            optdepends: sorted_unstable(pkg.opt_depends),
            makedepends: sorted_unstable(pkg.make_depends),
            provides: sorted_unstable(pkg.provides),
            conflicts: sorted_unstable(pkg.conflicts),
            replaces: sorted_unstable(pkg.replaces),
            architecture: None,
            packager: pkg.maintainer,
            build_date: pkg.last_modified,
            install_date: None,
            download_size: 0,
            install_size: 0,
            has_script: None,
            validation: PkgValidation::none(),
        }
    }
}

} // verus!
