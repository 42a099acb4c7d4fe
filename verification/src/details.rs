//! The details tab of the info pane: its property rows, what each row
//! shows for a value, the optional dependencies marked as installed, and
//! the copied Markdown summary.
use vstd::prelude::*;

use crate::text::{push_str, join_strings, join_seqs, views, chars_of, string_from_range, first_in};
use crate::flags::PkgFlags;

verus! {

//------------------------------------------------------------------------------
// ENUM: PropID
//------------------------------------------------------------------------------
/// The property rows of the details tab.
#[derive(Clone, Copy, Debug, PartialEq, Eq, Structural)]
pub enum PropID {
    Popularity,
    OutOfDate,
    PackageUrl,
    Url,
    Groups,
    Dependencies,
    Optional,
    Make,
    RequiredBy,
    OptionalFor,
    Provides,
    ConflictsWith,
    Replaces,
    Licenses,
    Architecture,
    Packager,
    BuildDate,
    InstallDate,
    DownloadSize,
    InstallScript,
    Validation,
}

/// The label of a property row.
pub open spec fn prop_label(id: PropID) -> Seq<char> {
    match id {
        PropID::Popularity => "Popularity"@,
        PropID::OutOfDate => "Out of Date"@,
        PropID::PackageUrl => "Package URL"@,
        PropID::Url => "URL"@,
        PropID::Groups => "Groups"@,
        PropID::Dependencies => "Dependencies"@,
        PropID::Optional => "Optional"@,
        PropID::Make => "Make"@,
        PropID::RequiredBy => "Required By"@,
        PropID::OptionalFor => "Optional For"@,
        PropID::Provides => "Provides"@,
        PropID::ConflictsWith => "Conflicts With"@,
        PropID::Replaces => "Replaces"@,
        PropID::Licenses => "Licenses"@,
        PropID::Architecture => "Architecture"@,
        PropID::Packager => "Packager"@,
        PropID::BuildDate => "Build Date"@,
        PropID::InstallDate => "Install Date"@,
        PropID::DownloadSize => "Download Size"@,
        PropID::InstallScript => "Install Script"@,
        PropID::Validation => "Validation"@,
    }
}

impl Default for PropID {
    fn default() -> (r: Self)
        ensures
            r == PropID::Popularity,
    {
        PropID::Popularity
    }
}

impl PropID {
    /// The label of the row.
    pub fn label(self) -> (r: &'static str)
        ensures
            r@ == prop_label(self),
    {
        match self {
            PropID::Popularity => "Popularity",
            PropID::OutOfDate => "Out of Date",
            PropID::PackageUrl => "Package URL",
            PropID::Url => "URL",
            PropID::Groups => "Groups",
            PropID::Dependencies => "Dependencies",
            PropID::Optional => "Optional",
            PropID::Make => "Make",
            PropID::RequiredBy => "Required By",
            PropID::OptionalFor => "Optional For",
            PropID::Provides => "Provides",
            PropID::ConflictsWith => "Conflicts With",
            PropID::Replaces => "Replaces",
            PropID::Licenses => "Licenses",
            PropID::Architecture => "Architecture",
            PropID::Packager => "Packager",
            PropID::BuildDate => "Build Date",
            PropID::InstallDate => "Install Date",
            PropID::DownloadSize => "Download Size",
            PropID::InstallScript => "Install Script",
            PropID::Validation => "Validation",
        }
    }
}

//------------------------------------------------------------------------------
// ENUM: PropType
//------------------------------------------------------------------------------
/// How a row shows its value: plain text, one link, a packager with a mail
/// link, a list of package links, or an error.
#[derive(Clone, Copy, Debug, PartialEq, Eq, Structural)]
pub enum PropType {
    Text,
    Link,
    Packager,
    LinkList,
    Error,
}

impl Default for PropType {
    fn default() -> (r: Self)
        ensures
            r == PropType::Text,
    {
        PropType::Text
    }
}

impl PropType {
    /// Whether rows of this type hand clicked links to the package link
    /// handler.
    pub fn has_link_handler(self) -> (r: bool)
        ensures
            r == (self == PropType::Link || self == PropType::LinkList || self
                == PropType::Packager),
    {
        match self {
            PropType::Link | PropType::LinkList | PropType::Packager => true,
            _ => false,
        }
    }
}

/// The rows of the details tab, in their order.
pub open spec fn detail_rows_spec() -> Seq<(PropID, PropType)> {
    seq![
        (PropID::Popularity, PropType::Text),
        (PropID::OutOfDate, PropType::Error),
        (PropID::PackageUrl, PropType::Link),
        (PropID::Url, PropType::Link),
        (PropID::Groups, PropType::Text),
        (PropID::Provides, PropType::Text),
        (PropID::Dependencies, PropType::LinkList),
        (PropID::Optional, PropType::LinkList),
        (PropID::Make, PropType::LinkList),
        (PropID::RequiredBy, PropType::LinkList),
        (PropID::OptionalFor, PropType::LinkList),
        (PropID::ConflictsWith, PropType::LinkList),
        (PropID::Replaces, PropType::LinkList),
        (PropID::Architecture, PropType::Text),
        (PropID::Licenses, PropType::Text),
        (PropID::Packager, PropType::Packager),
        (PropID::BuildDate, PropType::Text),
        (PropID::InstallDate, PropType::Text),
        (PropID::DownloadSize, PropType::Text),
        (PropID::InstallScript, PropType::Text),
        (PropID::Validation, PropType::Text),
    ]
}

pub fn detail_rows() -> (r: Vec<(PropID, PropType)>)
    ensures
        r@ == detail_rows_spec(),
{
    let r = vec![
        (PropID::Popularity, PropType::Text),
        (PropID::OutOfDate, PropType::Error),
        (PropID::PackageUrl, PropType::Link),
        (PropID::Url, PropType::Link),
        (PropID::Groups, PropType::Text),
        (PropID::Provides, PropType::Text),
        (PropID::Dependencies, PropType::LinkList),
        (PropID::Optional, PropType::LinkList),
        (PropID::Make, PropType::LinkList),
        (PropID::RequiredBy, PropType::LinkList),
        (PropID::OptionalFor, PropType::LinkList),
        (PropID::ConflictsWith, PropType::LinkList),
        (PropID::Replaces, PropType::LinkList),
        (PropID::Architecture, PropType::Text),
        (PropID::Licenses, PropType::Text),
        (PropID::Packager, PropType::Packager),
        (PropID::BuildDate, PropType::Text),
        (PropID::InstallDate, PropType::Text),
        (PropID::DownloadSize, PropType::Text),
        (PropID::InstallScript, PropType::Text),
        (PropID::Validation, PropType::Text),
    ];
    assert(r@ == detail_rows_spec());
    r
}

//------------------------------------------------------------------------------
// ENUM: ValueType
//------------------------------------------------------------------------------
/// A value handed to a row: a text always shown, a text shown when not
/// empty, a text shown when a number is not zero, or a list shown always,
/// when not empty, or when not empty and joined with " | ".
#[derive(Debug)]
pub enum ValueType<'a> {
    Str(&'a str),
    StrOpt(&'a str),
    StrOptNum(&'a str, i64),
    Vec(&'a Vec<String>),
    VecOpt(&'a Vec<String>),
    VecOptJoin(&'a Vec<String>),
}

/// The text a row shows for a value, or `None` when the row is hidden;
/// list items are separated by `spacer`.
pub open spec fn row_value_spec(value: ValueType, spacer: Seq<char>) -> Option<Seq<char>> {
    match value {
        ValueType::Str(s) => Some(s@),
        ValueType::StrOpt(s) => if s@.len() == 0 {
            None
        } else {
            Some(s@)
        },
        ValueType::StrOptNum(s, n) => if n == 0 {
            None
        } else {
            Some(s@)
        },
        ValueType::Vec(v) => Some(join_seqs(views(v@), spacer)),
        ValueType::VecOpt(v) => if v@.len() == 0 {
            None
        } else {
            Some(join_seqs(views(v@), spacer))
        },
        ValueType::VecOptJoin(v) => if v@.len() == 0 {
            None
        } else {
            Some(join_seqs(views(v@), " | "@))
        },
    }
}

/// The text a row shows for a value, `None` when the row is hidden.
pub fn row_value(value: &ValueType, spacer: &str) -> (r: Option<String>)
    ensures
        match r {
            Some(s) => row_value_spec(*value, spacer@) == Some(s@),
            None => row_value_spec(*value, spacer@).is_none(),
        },
{
    match value {
        ValueType::Str(s) => {
            let mut t = String::new();
            push_str(&mut t, s);
            Some(t)
        },
        ValueType::StrOpt(s) => {
            let n = chars_of(s).len();
            if n == 0 {
                None
            } else {
                let mut t = String::new();
                push_str(&mut t, s);
                Some(t)
            }
        },
        ValueType::StrOptNum(s, n) => {
            if *n == 0 {
                None
            } else {
                let mut t = String::new();
                push_str(&mut t, s);
                Some(t)
            }
        },
        ValueType::Vec(v) => Some(join_strings(v, spacer)),
        ValueType::VecOpt(v) => {
            if v.len() == 0 {
                None
            } else {
                Some(join_strings(v, spacer))
            }
        },
        ValueType::VecOptJoin(v) => {
            if v.len() == 0 {
                None
            } else {
                Some(join_strings(v, " | "))
            }
        },
    }
}

//------------------------------------------------------------------------------
// Optional dependencies
//------------------------------------------------------------------------------
/// The package name of an optional dependency `name: reason`: the text
/// before its first `:`, `None` when it has none.
pub open spec fn optdep_name_spec(dep: Seq<char>) -> Option<Seq<char>> {
    match first_in(dep, 0, dep.len() as int, ':') {
        Some(k) => Some(dep.subrange(0, k)),
        None => None,
    }
}

/// The name of an optional dependency `name: reason` is the part before the
/// colon, and a dependency without a colon gives none.
pub proof fn law_optdep_name(name: Seq<char>, reason: Seq<char>, plain: Seq<char>)
    requires
        forall|i: int| 0 <= i < name.len() ==> name[i] != ':',
    ensures
        optdep_name_spec(name + seq![':'] + reason) == Some(name),
        (forall|i: int| 0 <= i < plain.len() ==> plain[i] != ':') ==> optdep_name_spec(plain) is None,
{
    let d = name + seq![':'] + reason;
    assert forall|j: int| 0 <= j < name.len() implies d[j] != ':' by {
        assert(d[j] == name[j]);
    }
    assert(d[name.len() as int] == ':');
    crate::text::lemma_first_in_is(d, 0, d.len() as int, ':', name.len() as int);
    assert(d.subrange(0, name.len() as int) =~= name);
    if forall|i: int| 0 <= i < plain.len() ==> plain[i] != ':' {
        crate::text::lemma_first_in_none(plain, 0, plain.len() as int, ':');
    }
}

pub fn optdep_name(dep: &str) -> (r: Option<String>)
    ensures
        match r {
            Some(s) => optdep_name_spec(dep@) == Some(s@),
            None => optdep_name_spec(dep@).is_none(),
        },
{
    let v = chars_of(dep);
    match crate::text::find_char(&v, 0, v.len(), ':') {
        Some(k) => {
            proof {
                crate::text::lemma_first_in_bounds(v@, 0, v@.len() as int, ':');
            }
            Some(string_from_range(&v, 0, k))
        },
        None => None,
    }
}

/// The optional dependencies as the details tab lists them: for an
/// installed package, each one whose name an installed package satisfies
/// (`satisfied[i]`) gets `label` appended; otherwise they stay as they are.
pub open spec fn installed_optdeps_spec(
    flags_bits: u32,
    optdepends: Seq<Seq<char>>,
    satisfied: Seq<bool>,
    label: Seq<char>,
) -> Seq<Seq<char>> {
    if optdepends.len() != 0 && flags_bits & 15 != 0 {
        Seq::new(
            optdepends.len(),
            |i: int|
                if optdep_name_spec(optdepends[i]).is_some() && satisfied[i] {
                    optdepends[i] + label
                } else {
                    optdepends[i]
                },
        )
    } else {
        optdepends
    }
}

/// Marks the optional dependencies that are installed; `satisfied[i]`
/// tells whether an installed package satisfies the name of
/// `optdepends[i]` (see `optdep_name`).
pub fn installed_optdeps(
    flags: PkgFlags,
    optdepends: &Vec<String>,
    satisfied: &Vec<bool>,
    label: &str,
) -> (r: Vec<String>)
    requires
        satisfied@.len() == optdepends@.len(),
    ensures
        views(r@) == installed_optdeps_spec(
            flags.spec_bits(),
            views(optdepends@),
            satisfied@,
            label@,
        ),
{
    let mut r: Vec<String> = Vec::new();
    let marking = optdepends.len() != 0 && flags.intersects(PkgFlags::installed());
    let mut i: usize = 0;
    while i < optdepends.len()
        invariant
            satisfied@.len() == optdepends@.len(),
            i <= optdepends@.len(),
            r@.len() == i,
            marking == (optdepends@.len() != 0 && flags.spec_bits() & 15 != 0),
            forall|k: int|
                0 <= k < i ==> (#[trigger] views(r@)[k]) == installed_optdeps_spec(
                    flags.spec_bits(),
                    views(optdepends@),
                    satisfied@,
                    label@,
                )[k],
        decreases optdepends@.len() - i,
    {
        let dep = &optdepends[i];
        let mut t = String::new();
        push_str(&mut t, dep.as_str());
        if marking {
            let name = optdep_name(dep.as_str());
            if name.is_some() && satisfied[i] {
                push_str(&mut t, label);
            }
        }
        assert(views(optdepends@)[i as int] == dep@);
        assert(t@ == installed_optdeps_spec(
            flags.spec_bits(),
            views(optdepends@),
            satisfied@,
            label@,
        )[i as int]);
        let ghost before = r@;
        r.push(t);
        assert(views(r@)[i as int] == t@);
        assert forall|k: int| 0 <= k < i implies #[trigger] views(r@)[k] == views(before)[k] by {
            assert(r@[k] == before[k]);
        }
        i = i + 1;
    }
    assert(views(r@) == installed_optdeps_spec(
        flags.spec_bits(),
        views(optdepends@),
        satisfied@,
        label@,
    ));
    r
}

//------------------------------------------------------------------------------
// Copy
//------------------------------------------------------------------------------
/// The lines of the visible rows with a label and a value.
pub open spec fn detail_lines(rows: Seq<(Seq<char>, Seq<char>)>) -> Seq<char>
    decreases rows.len(),
{
    if rows.len() == 0 {
        Seq::empty()
    } else {
        let (label, value) = rows.last();
        detail_lines(rows.drop_last()) + if label.len() == 0 || value.len() == 0 {
            Seq::empty()
        } else {
            "- **"@ + label + "** : "@ + value + "\n"@
        }
    }
}

/// The package facts the details copy starts with.
pub struct DetailsHeader {
    pub name: String,
    pub version: String,
    pub description: String,
    pub repository: String,
    pub install_size: String,
    pub status: String,
}

pub open spec fn header_lines(h: DetailsHeader) -> Seq<char> {
    "## Package Information\n"@ + "- **Name** : "@ + h.name@ + "\n"@ + "- **Version** : "@
        + h.version@ + "\n"@ + "- **Description** : "@ + h.description@ + "\n"@
        + "- **Repository** : "@ + h.repository@ + "\n"@ + "- **Installed Size** : "@
        + h.install_size@ + "\n"@ + "- **Status** : "@ + h.status@ + "\n"@
}

pub open spec fn row_views(rows: Seq<(String, String)>) -> Seq<(Seq<char>, Seq<char>)> {
    rows.map_values(|r: (String, String)| (r.0@, r.1@))
}

/// The Markdown the details tab copies: the package facts, then a line for
/// each visible row (label and value, the value's link spacers already
/// turned into spaces) that has both.
pub fn details_markdown(header: &DetailsHeader, rows: &Vec<(String, String)>) -> (r: String)
    ensures
        r@ == header_lines(*header) + detail_lines(row_views(rows@)),
{
    let mut s = String::new();
    push_str(&mut s, "## Package Information\n");
    push_str(&mut s, "- **Name** : ");
    push_str(&mut s, header.name.as_str());
    push_str(&mut s, "\n");
    push_str(&mut s, "- **Version** : ");
    push_str(&mut s, header.version.as_str());
    push_str(&mut s, "\n");
    push_str(&mut s, "- **Description** : ");
    push_str(&mut s, header.description.as_str());
    push_str(&mut s, "\n");
    push_str(&mut s, "- **Repository** : ");
    push_str(&mut s, header.repository.as_str());
    push_str(&mut s, "\n");
    push_str(&mut s, "- **Installed Size** : ");
    push_str(&mut s, header.install_size.as_str());
    push_str(&mut s, "\n");
    push_str(&mut s, "- **Status** : ");
    push_str(&mut s, header.status.as_str());
    push_str(&mut s, "\n");
    let ghost head = s@;
    assert(head == header_lines(*header));
    let mut i: usize = 0;
    while i < rows.len()
        invariant
            i <= rows@.len(),
            head == header_lines(*header),
            s@ == head + detail_lines(row_views(rows@).take(i as int)),
        decreases rows@.len() - i,
    {
        assert(row_views(rows@).take(i + 1).drop_last() == row_views(rows@).take(i as int));
        let label = &rows[i].0;
        let value = &rows[i].1;
        let ln = chars_of(label.as_str()).len();
        let vn = chars_of(value.as_str()).len();
        if ln != 0 && vn != 0 {
            push_str(&mut s, "- **");
            push_str(&mut s, label.as_str());
            push_str(&mut s, "** : ");
            push_str(&mut s, value.as_str());
            push_str(&mut s, "\n");
        }
        i = i + 1;
    }
    assert(row_views(rows@).take(rows@.len() as int) == row_views(rows@));
    s
}

} // verus!
