//! A package as the views show it: its data and an available update.
use vstd::prelude::*;

use crate::flags::{PkgFlags, PkgValidation};
use crate::pkg_data::{PkgData, PkgReason, local_flag_bits};
use crate::text::{push_str, opt_view, text_eq, chars_of, views, join_seqs, join_strings, sorted_texts};
use crate::sort::sort_names;

verus! {

/// The text that `size::Size::from_bytes(bytes).to_string()` gives.
pub uninterp spec fn size_text(bytes: int) -> Seq<char>;

/// Human-readable size (`size::Size::from_bytes(..).to_string()`).
///
/// Claimed of the outside code: the text depends on the byte count alone;
/// what it is (unit, rounding) is left unsaid and goes by the name
/// `size_text`.
#[verifier::external_body]
pub(crate) fn format_size(bytes: i64) -> (r: String)
    ensures
        r@ == size_text(bytes as int),
{
    size::Size::from_bytes(bytes).to_string()
}

/// The view of an optional string slice.
pub open spec fn opt_str(o: Option<&str>) -> Option<Seq<char>> {
    match o {
        Some(s) => Some(s@),
        None => None,
    }
}

/// Where the PKGBUILD of a package is found.
#[derive(Debug)]
pub enum PkgbuildLocation {
    /// A web address.
    Url(String),
    /// In the PKGBUILD repositories of paru: a file whose path ends with
    /// `key`, under the directory of repository `repo`.
    ParuRepo { repo: String, key: String },
    /// Nowhere.
    Unavailable,
}

/// `name` is among `names`.
pub open spec fn has_name(names: Seq<String>, name: Seq<char>) -> bool {
    exists|i: int| 0 <= i < names.len() && #[trigger] names[i]@ == name
}

/// Whether `name` is among `names`.
pub fn contains_name(names: &Vec<String>, name: &String) -> (r: bool)
    ensures
        r == has_name(names@, name@),
{
    let mut i: usize = 0;
    while i < names.len()
        invariant
            i <= names@.len(),
            forall|k: int| 0 <= k < i ==> names@[k]@ != name@,
        decreases names@.len() - i,
    {
        if names[i] == *name {
            return true;
        }
        i = i + 1;
    }
    false
}

/// The web page of a package.
pub open spec fn package_url_spec(
    repo: Seq<char>,
    name: Seq<char>,
    arch: Seq<char>,
    sync_repos: Seq<String>,
) -> Option<Seq<char>> {
    if repo == "aur"@ {
        Some("https://aur.archlinux.org/packages/"@ + name)
    } else if has_name(sync_repos, repo) {
        Some("https://www.archlinux.org/packages/"@ + repo + "/"@ + arch + "/"@ + name + "/"@)
    } else {
        None
    }
}

/// Where the PKGBUILD of a package is: `base` names the package base (the
/// package name if it has none).
pub open spec fn pkgbuild_spec(
    repo: Seq<char>,
    base: Seq<char>,
    sync_repos: Seq<String>,
    paru_found: bool,
) -> Option<(int, Seq<char>, Seq<char>)> {
    if repo == "aur"@ {
        Some((0, "https://aur.archlinux.org/cgit/aur.git/tree/PKGBUILD?h="@ + base, Seq::empty()))
    } else if has_name(sync_repos, repo) {
        Some(
            (
                0,
                "https://gitlab.archlinux.org/archlinux/packaging/packages/"@ + base
                    + "/-/blob/main/PKGBUILD"@,
                Seq::empty(),
            ),
        )
    } else if repo == "local"@ || !paru_found {
        None
    } else {
        Some((1, repo, base + "/PKGBUILD"@))
    }
}

/// How a location is summed up by `pkgbuild_spec`.
pub open spec fn location_view(l: PkgbuildLocation) -> Option<(int, Seq<char>, Seq<char>)> {
    match l {
        PkgbuildLocation::Url(u) => Some((0, u@, Seq::empty())),
        PkgbuildLocation::ParuRepo { repo, key } => Some((1, repo@, key@)),
        PkgbuildLocation::Unavailable => None,
    }
}

/// The status word of a package.
pub open spec fn status_spec(bits: u32) -> Seq<char> {
    if bits == 1 {
        "explicit"@
    } else if bits == 2 {
        "dependency"@
    } else if bits == 4 {
        "optional"@
    } else if bits == 8 {
        "orphan"@
    } else {
        ""@
    }
}

/// The status a package shows follows why it is installed: nothing for a
/// package that is not installed, "explicit" for one installed on
/// request, "dependency" for a dependency that other packages need,
/// "optional" for one that others only want optionally, "orphan" for a
/// dependency nothing needs.
pub proof fn law_status_of_install_reason(needed: bool, wanted: bool, reason: PkgReason)
    ensures
        status_spec(local_flag_bits(false, reason, needed, wanted)) == ""@,
        status_spec(local_flag_bits(true, PkgReason::Explicit, needed, wanted)) == "explicit"@,
        status_spec(local_flag_bits(true, PkgReason::Depend, true, wanted)) == "dependency"@,
        status_spec(local_flag_bits(true, PkgReason::Depend, false, true)) == "optional"@,
        status_spec(local_flag_bits(true, PkgReason::Depend, false, false)) == "orphan"@,
{
}

/// The icon of a package's status in the package list.
pub open spec fn status_icon_spec(bits: u32) -> Seq<char> {
    if bits == 1 {
        "pkg-explicit"@
    } else if bits == 2 {
        "pkg-dependency"@
    } else if bits == 4 {
        "pkg-optional"@
    } else if bits == 8 {
        "pkg-orphan"@
    } else {
        ""@
    }
}

/// `text` is the strings of `v` sorted in the order of `str` and joined
/// with ", ".
pub open spec fn sorted_joined(v: Seq<String>, text: Seq<char>) -> bool {
    exists|t: Seq<Seq<char>>|
        #![trigger join_seqs(t, ", "@)]
        t.to_multiset() == views(v).to_multiset() && sorted_texts(t) && text == join_seqs(
            t,
            ", "@,
        )
}

/// The strings of a list, sorted and joined with ", " (as the package list
/// shows groups and licenses).
pub fn joined_sorted(v: &Vec<String>) -> (r: String)
    ensures
        sorted_joined(v@, r@),
{
    let mut copy: Vec<String> = Vec::new();
    let mut i: usize = 0;
    while i < v.len()
        invariant
            i <= v@.len(),
            views(copy@) == views(v@).take(i as int),
        decreases v@.len() - i,
    {
        copy.push(v[i].clone());
        assert(views(v@).take(i + 1) == views(v@).take(i as int).push(v@[i as int]@));
        i = i + 1;
    }
    assert(views(v@).take(v@.len() as int) == views(v@));
    let sorted = sort_names(copy);
    let r = join_strings(&sorted, ", ");
    assert(join_seqs(views(sorted@), ", "@) == r@);
    r
}

//------------------------------------------------------------------------------
// STRUCT: PkgObject
//------------------------------------------------------------------------------
#[derive(Debug)]
pub struct PkgObject {
    data: PkgData,
    update_version: Option<String>,
}

impl PkgObject {
    pub closed spec fn spec_data(&self) -> PkgData {
        self.data
    }

    pub closed spec fn spec_update_version(&self) -> Option<String> {
        self.update_version
    }

    pub open spec fn spec_name(&self) -> Seq<char> {
        self.spec_data().name@
    }

    //---------------------------------------
    // New function
    //---------------------------------------
    pub fn new(data: PkgData) -> (r: Self)
        ensures
            r.spec_data() == data,
            r.spec_update_version().is_none(),
    {
        PkgObject { data, update_version: None }
    }

    pub fn data(&self) -> (r: &PkgData)
        ensures
            *r == self.spec_data(),
    {
        &self.data
    }

    pub fn update_version(&self) -> (r: &Option<String>)
        ensures
            *r == self.spec_update_version(),
    {
        &self.update_version
    }

    pub fn set_update_version(&mut self, version: Option<String>)
        ensures
            final(self).spec_data() == old(self).spec_data(),
            final(self).spec_update_version() == version,
    {
        self.update_version = version;
    }

    //---------------------------------------
    // Flags
    //---------------------------------------
    /// The status flags, with the update bit when an update is available.
    pub fn flags(&self) -> (r: PkgFlags)
        ensures
            self.spec_update_version().is_some() ==> r.spec_bits()
                == self.spec_data().flags.spec_bits() | 32,
            self.spec_update_version().is_none() ==> r == self.spec_data().flags,
    {
        let flags = self.data.flags;
        if self.update_version.is_some() {
            flags.union(PkgFlags::updates())
        } else {
            flags
        }
    }

    pub fn name(&self) -> (r: &String)
        ensures
            *r == self.spec_data().name,
    {
        &self.data.name
    }

    pub fn version(&self) -> (r: &String)
        ensures
            *r == self.spec_data().version,
    {
        &self.data.version
    }

    pub fn repository(&self) -> (r: &String)
        ensures
            *r == self.spec_data().repository,
    {
        &self.data.repository
    }

    pub fn is_installed(&self) -> (r: bool)
        ensures
            r == self.spec_data().is_installed,
    {
        self.data.is_installed
    }

    //---------------------------------------
    // Data fields
    //---------------------------------------
    pub fn description(&self) -> (r: Option<&str>)
        ensures
            opt_str(r) == opt_view(self.spec_data().description),
    {
        match &self.data.description {
            Some(s) => Some(s.as_str()),
            None => None,
        }
    }

    pub fn popularity(&self) -> (r: Option<&str>)
        ensures
            opt_str(r) == opt_view(self.spec_data().popularity),
    {
        match &self.data.popularity {
            Some(s) => Some(s.as_str()),
            None => None,
        }
    }

    pub fn url(&self) -> (r: Option<&str>)
        ensures
            opt_str(r) == opt_view(self.spec_data().url),
    {
        match &self.data.url {
            Some(s) => Some(s.as_str()),
            None => None,
        }
    }

    pub fn architecture(&self) -> (r: Option<&str>)
        ensures
            opt_str(r) == opt_view(self.spec_data().architecture),
    {
        match &self.data.architecture {
            Some(s) => Some(s.as_str()),
            None => None,
        }
    }

    pub fn packager(&self) -> (r: Option<&str>)
        ensures
            opt_str(r) == opt_view(self.spec_data().packager),
    {
        match &self.data.packager {
            Some(s) => Some(s.as_str()),
            None => None,
        }
    }

    pub fn has_script(&self) -> (r: Option<&str>)
        ensures
            opt_str(r) == opt_view(self.spec_data().has_script),
    {
        match &self.data.has_script {
            Some(s) => Some(s.as_str()),
            None => None,
        }
    }

    pub fn licenses(&self) -> (r: &[String])
        ensures
            r@ == self.spec_data().licenses@,
    {
        self.data.licenses.as_slice()
    }

    pub fn groups(&self) -> (r: &[String])
        ensures
            r@ == self.spec_data().groups@,
    {
        self.data.groups.as_slice()
    }

    pub fn depends(&self) -> (r: &[String])
        ensures
            r@ == self.spec_data().depends@,
    {
        self.data.depends.as_slice()
    }

    pub fn optdepends(&self) -> (r: &[String])
        ensures
            r@ == self.spec_data().optdepends@,
    {
        self.data.optdepends.as_slice()
    }

    pub fn makedepends(&self) -> (r: &[String])
        ensures
            r@ == self.spec_data().makedepends@,
    {
        self.data.makedepends.as_slice()
    }

    pub fn provides(&self) -> (r: &[String])
        ensures
            r@ == self.spec_data().provides@,
    {
        self.data.provides.as_slice()
    }

    pub fn conflicts(&self) -> (r: &[String])
        ensures
            r@ == self.spec_data().conflicts@,
    {
        self.data.conflicts.as_slice()
    }

    pub fn replaces(&self) -> (r: &[String])
        ensures
            r@ == self.spec_data().replaces@,
    {
        self.data.replaces.as_slice()
    }

    pub fn out_of_date(&self) -> (r: Option<i64>)
        ensures
            r == self.spec_data().out_of_date,
    {
        self.data.out_of_date
    }

    pub fn install_date(&self) -> (r: Option<i64>)
        ensures
            r == self.spec_data().install_date,
    {
        self.data.install_date
    }

    pub fn build_date(&self) -> (r: i64)
        ensures
            r == self.spec_data().build_date,
    {
        self.data.build_date
    }

    pub fn download_size(&self) -> (r: i64)
        ensures
            r == self.spec_data().download_size,
    {
        self.data.download_size
    }

    pub fn install_size(&self) -> (r: i64)
        ensures
            r == self.spec_data().install_size,
    {
        self.data.install_size
    }

    pub fn validation(&self) -> (r: PkgValidation)
        ensures
            r == self.spec_data().validation,
    {
        self.data.validation
    }

    //---------------------------------------
    // Status
    //---------------------------------------
    /// "explicit", "dependency", "optional" or "orphan" for an installed
    /// package, else empty.
    pub fn status(&self) -> (r: &'static str)
        ensures
            r@ == status_spec(self.spec_data().flags.spec_bits()),
    {
        let bits = self.data.flags.bits();
        if bits == 1 {
            "explicit"
        } else if bits == 2 {
            "dependency"
        } else if bits == 4 {
            "optional"
        } else if bits == 8 {
            "orphan"
        } else {
            ""
        }
    }

    /// The icon of the package's status: `pkg-explicit`, `pkg-dependency`,
    /// `pkg-optional` or `pkg-orphan` for an installed package, else none.
    pub fn status_icon(&self) -> (r: &'static str)
        ensures
            r@ == status_icon_spec(self.spec_data().flags.spec_bits()),
    {
        let bits = self.data.flags.bits();
        if bits == 1 {
            "pkg-explicit"
        } else if bits == 2 {
            "pkg-dependency"
        } else if bits == 4 {
            "pkg-optional"
        } else if bits == 8 {
            "pkg-orphan"
        } else {
            ""
        }
    }

    /// The install date, 0 for a package that is not installed.
    pub fn install_date_or_zero(&self) -> (r: i64)
        ensures
            r == match self.spec_data().install_date {
                Some(d) => d,
                None => 0,
            },
    {
        match self.data.install_date {
            Some(d) => d,
            None => 0,
        }
    }

    /// The groups sorted and joined with ", ".
    pub fn groups_joined(&self) -> (r: String)
        ensures
            sorted_joined(self.spec_data().groups@, r@),
    {
        joined_sorted(&self.data.groups)
    }

    /// The licenses sorted and joined with ", ".
    pub fn licenses_joined(&self) -> (r: String)
        ensures
            sorted_joined(self.spec_data().licenses@, r@),
    {
        joined_sorted(&self.data.licenses)
    }

    /// Style classes of the status label: a warning for an orphan, success
    /// for another installed package.
    pub fn status_css_classes(&self) -> (r: Vec<&'static str>)
        ensures
            self.spec_data().flags.spec_bits() == 8 ==> r@.map_values(|s: &str| s@) == seq![
                "tag"@,
                "warning"@,
            ],
            (self.spec_data().flags.spec_bits() == 1 || self.spec_data().flags.spec_bits() == 2
                || self.spec_data().flags.spec_bits() == 4) ==> r@.map_values(|s: &str| s@)
                == seq!["tag"@, "success"@],
            !(self.spec_data().flags.spec_bits() == 1 || self.spec_data().flags.spec_bits() == 2
                || self.spec_data().flags.spec_bits() == 4 || self.spec_data().flags.spec_bits()
                == 8) ==> r@.len() == 0,
    {
        let bits = self.data.flags.bits();
        let mut v: Vec<&'static str> = Vec::new();
        if bits == 8 {
            v.push("tag");
            v.push("warning");
        } else if bits == 1 || bits == 2 || bits == 4 {
            v.push("tag");
            v.push("success");
        }
        v
    }

    //---------------------------------------
    // Sizes
    //---------------------------------------
    pub fn download_size_string(&self) -> (r: String)
        ensures
            r@ == size_text(self.spec_data().download_size as int),
    {
        format_size(self.data.download_size)
    }

    pub fn install_size_string(&self) -> (r: String)
        ensures
            r@ == size_text(self.spec_data().install_size as int),
    {
        format_size(self.data.install_size)
    }

    //---------------------------------------
    // Web pages
    //---------------------------------------
    /// The web page of the package: on the AUR, or on the Arch Linux site
    /// for a package of a sync repository (`sync_repos`).
    pub fn package_url(&self, sync_repos: &Vec<String>) -> (r: Option<String>)
        ensures
            opt_view(r) == package_url_spec(
                self.spec_data().repository@,
                self.spec_data().name@,
                match self.spec_data().architecture {
                    Some(a) => a@,
                    None => Seq::empty(),
                },
                sync_repos@,
            ),
    {
        let data = &self.data;
        if text_eq(data.repository.as_str(), "aur") {
            let mut u = String::new();
            push_str(&mut u, "https://aur.archlinux.org/packages/");
            push_str(&mut u, data.name.as_str());
            Some(u)
        } else if contains_name(sync_repos, &data.repository) {
            let mut u = String::new();
            push_str(&mut u, "https://www.archlinux.org/packages/");
            push_str(&mut u, data.repository.as_str());
            push_str(&mut u, "/");
            match &data.architecture {
                Some(a) => push_str(&mut u, a.as_str()),
                None => {},
            }
            push_str(&mut u, "/");
            push_str(&mut u, data.name.as_str());
            push_str(&mut u, "/");
            Some(u)
        } else {
            None
        }
    }

    /// Where the PKGBUILD of the package is: on the AUR, on the Arch Linux
    /// GitLab for a package of a sync repository (`sync_repos`), nowhere for
    /// a local package, else in paru's PKGBUILD repositories if paru was
    /// found.
    pub fn pkgbuild_location(&self, sync_repos: &Vec<String>, paru_found: bool) -> (r:
        PkgbuildLocation)
        ensures
            location_view(r) == pkgbuild_spec(
                self.spec_data().repository@,
                match self.spec_data().base {
                    Some(b) => b@,
                    None => self.spec_data().name@,
                },
                sync_repos@,
                paru_found,
            ),
    {
        let data = &self.data;
        let name: &String = match &data.base {
            Some(b) => b,
            None => &data.name,
        };
        if text_eq(data.repository.as_str(), "aur") {
            let mut u = String::new();
            push_str(&mut u, "https://aur.archlinux.org/cgit/aur.git/tree/PKGBUILD?h=");
            push_str(&mut u, name.as_str());
            PkgbuildLocation::Url(u)
        } else if contains_name(sync_repos, &data.repository) {
            let mut u = String::new();
            push_str(&mut u, "https://gitlab.archlinux.org/archlinux/packaging/packages/");
            push_str(&mut u, name.as_str());
            push_str(&mut u, "/-/blob/main/PKGBUILD");
            PkgbuildLocation::Url(u)
        } else if text_eq(data.repository.as_str(), "local") || !paru_found {
            PkgbuildLocation::Unavailable
        } else {
            let mut repo = String::new();
            push_str(&mut repo, data.repository.as_str());
            let mut key = String::new();
            push_str(&mut key, name.as_str());
            push_str(&mut key, "/PKGBUILD");
            PkgbuildLocation::ParuRepo { repo, key }
        }
    }
}

//------------------------------------------------------------------------------
// The same package
//------------------------------------------------------------------------------
/// Two package objects are the same package: they hold the same in every
/// field (package objects are values, so nothing else tells them apart).
pub open spec fn same_package(a: PkgObject, b: PkgObject) -> bool {
    let x = a.spec_data();
    let y = b.spec_data();
    &&& x.flags == y.flags
    &&& x.is_installed == y.is_installed
    &&& x.out_of_date == y.out_of_date
    &&& x.build_date == y.build_date
    &&& x.install_date == y.install_date
    &&& x.download_size == y.download_size
    &&& x.install_size == y.install_size
    &&& x.validation == y.validation
    &&& x.name@ == y.name@
    &&& x.version@ == y.version@
    &&& x.repository@ == y.repository@
    &&& opt_view(x.base) == opt_view(y.base)
    &&& opt_view(x.description) == opt_view(y.description)
    &&& opt_view(x.popularity) == opt_view(y.popularity)
    &&& opt_view(x.url) == opt_view(y.url)
    &&& opt_view(x.architecture) == opt_view(y.architecture)
    &&& opt_view(x.packager) == opt_view(y.packager)
    &&& opt_view(x.has_script) == opt_view(y.has_script)
    &&& views(x.licenses@) == views(y.licenses@)
    &&& views(x.groups@) == views(y.groups@)
    &&& views(x.depends@) == views(y.depends@)
    &&& views(x.optdepends@) == views(y.optdepends@)
    &&& views(x.makedepends@) == views(y.makedepends@)
    &&& views(x.provides@) == views(y.provides@)
    &&& views(x.conflicts@) == views(y.conflicts@)
    &&& views(x.replaces@) == views(y.replaces@)
    &&& opt_view(a.spec_update_version()) == opt_view(b.spec_update_version())
}

/// Every package is the same package as itself.
pub proof fn lemma_same_package_refl(a: PkgObject)
    ensures
        same_package(a, a),
{
}

fn same_text_opt(a: &Option<String>, b: &Option<String>) -> (r: bool)
    ensures
        r == (opt_view(*a) == opt_view(*b)),
{
    match (a, b) {
        (Some(x), Some(y)) => text_eq(x.as_str(), y.as_str()),
        (None, None) => true,
        _ => false,
    }
}

fn same_texts(a: &Vec<String>, b: &Vec<String>) -> (r: bool)
    ensures
        r == (views(a@) == views(b@)),
{
    if a.len() != b.len() {
        assert(views(a@).len() != views(b@).len());
        return false;
    }
    let mut i: usize = 0;
    while i < a.len()
        invariant
            a@.len() == b@.len(),
            i <= a@.len(),
            forall|k: int| 0 <= k < i ==> #[trigger] views(a@)[k] == views(b@)[k],
        decreases a@.len() - i,
    {
        if !text_eq(a[i].as_str(), b[i].as_str()) {
            assert(views(a@)[i as int] != views(b@)[i as int]);
            return false;
        }
        i = i + 1;
    }
    assert(views(a@) =~= views(b@));
    true
}

fn same_date(a: Option<i64>, b: Option<i64>) -> (r: bool)
    ensures
        r == (a == b),
{
    match (a, b) {
        (Some(x), Some(y)) => x == y,
        (None, None) => true,
        _ => false,
    }
}

impl PkgObject {
    /// Whether `other` is the same package as this one (see `same_package`).
    pub fn is_same(&self, other: &PkgObject) -> (r: bool)
        ensures
            r == same_package(*self, *other),
    {
        let x = &self.data;
        let y = &other.data;
        x.flags == y.flags && x.is_installed == y.is_installed && same_date(
            x.out_of_date,
            y.out_of_date,
        ) && x.build_date == y.build_date && same_date(x.install_date, y.install_date)
            && x.download_size == y.download_size && x.install_size == y.install_size
            && x.validation == y.validation && text_eq(x.name.as_str(), y.name.as_str())
            && text_eq(x.version.as_str(), y.version.as_str()) && text_eq(
            x.repository.as_str(),
            y.repository.as_str(),
        ) && same_text_opt(&x.base, &y.base) && same_text_opt(&x.description, &y.description)
            && same_text_opt(&x.popularity, &y.popularity) && same_text_opt(&x.url, &y.url)
            && same_text_opt(&x.architecture, &y.architecture) && same_text_opt(
            &x.packager,
            &y.packager,
        ) && same_text_opt(&x.has_script, &y.has_script) && same_texts(
            &x.licenses,
            &y.licenses,
        ) && same_texts(&x.groups, &y.groups) && same_texts(&x.depends, &y.depends) && same_texts(
            &x.optdepends,
            &y.optdepends,
        ) && same_texts(&x.makedepends, &y.makedepends) && same_texts(&x.provides, &y.provides)
            && same_texts(&x.conflicts, &y.conflicts) && same_texts(&x.replaces, &y.replaces)
            && same_text_opt(&self.update_version, &other.update_version)
    }
}

//------------------------------------------------------------------------------
// PKGBUILD in paru's repositories
//------------------------------------------------------------------------------
/// A path ends with `key` at a separator: it is `key`, or ends with `/`
/// then `key`.
pub open spec fn path_ends_with(p: Seq<char>, key: Seq<char>) -> bool {
    p == key || ("/"@ + key).is_suffix_of(p)
}

/// The index of the first path from `i` on that ends with `key`.
pub open spec fn first_path_with(paths: Seq<String>, key: Seq<char>, i: int) -> Option<int>
    decreases paths.len() - i,
{
    if i < 0 || i >= paths.len() {
        None
    } else if path_ends_with(paths[i]@, key) {
        Some(i)
    } else {
        first_path_with(paths, key, i + 1)
    }
}

/// Whether `s` ends with `suffix`.
fn ends_with_chars(s: &Vec<char>, suffix: &Vec<char>) -> (r: bool)
    ensures
        r == suffix@.is_suffix_of(s@),
{
    if suffix.len() > s.len() {
        return false;
    }
    let off = s.len() - suffix.len();
    let mut k: usize = 0;
    while k < suffix.len()
        invariant
            off + suffix@.len() == s@.len(),
            s@.len() == s.len(),
            k <= suffix@.len(),
            forall|j: int| 0 <= j < k ==> s@[off + j] == suffix@[j],
        decreases suffix@.len() - k,
    {
        if s[off + k] != suffix[k] {
            assert(s@.subrange(off as int, s@.len() as int)[k as int] != suffix@[k as int]);
            return false;
        }
        k = k + 1;
    }
    assert(s@.subrange(off as int, s@.len() as int) == suffix@);
    true
}

/// The PKGBUILD that paru keeps for a package: of the files found under
/// the repository's directory (`paths`, in the order of the walk), the
/// first whose path ends with `key` (`name/PKGBUILD`, see
/// `PkgbuildLocation::ParuRepo`), as a `file://` address.
pub fn paru_pkgbuild_url(paths: &Vec<String>, key: &str) -> (r: Option<String>)
    ensures
        match first_path_with(paths@, key@, 0) {
            Some(i) => opt_view(r) == Some("file://"@ + paths@[i]@),
            None => r.is_none(),
        },
{
    let k = chars_of(key);
    let mut slash_key: Vec<char> = Vec::new();
    slash_key.push('/');
    let mut j: usize = 0;
    while j < k.len()
        invariant
            j <= k@.len(),
            slash_key@ == seq!['/'] + k@.take(j as int),
        decreases k@.len() - j,
    {
        slash_key.push(k[j]);
        assert(k@.take(j + 1) == k@.take(j as int).push(k@[j as int]));
        j = j + 1;
    }
    assert(k@.take(k@.len() as int) == k@);
    assert(slash_key@ == "/"@ + key@) by {
        reveal_strlit("/");
    }
    let mut i: usize = 0;
    while i < paths.len()
        invariant
            i <= paths@.len(),
            k@ == key@,
            slash_key@ == "/"@ + key@,
            first_path_with(paths@, key@, 0) == first_path_with(paths@, key@, i as int),
        decreases paths@.len() - i,
    {
        let p = chars_of(paths[i].as_str());
        let hit = text_eq(paths[i].as_str(), key) || ends_with_chars(&p, &slash_key);
        if hit {
            let mut u = String::new();
            push_str(&mut u, "file://");
            push_str(&mut u, paths[i].as_str());
            return Some(u);
        }
        i = i + 1;
    }
    None
}

} // verus!
