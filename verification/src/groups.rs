//! Package groups: the rows of the groups dialog, filtering, counting and
//! copying.
use vstd::prelude::*;

use crate::pkg_object::{PkgObject, status_spec};
use crate::text::{lemma_contains_self, contains_ignore_ascii_case, contains_nocase, utf8, push_str, decimal, decimal_string, text_eq};
use crate::search::{plural, lowercase, to_lowercase};
use crate::text::chars_of;

verus! {

/// One row of the groups dialog: a package and one of its groups.
#[derive(Debug)]
pub struct GroupEntry {
    pub package: String,
    pub status: String,
    pub groups: String,
}

/// The rows of a package: one per group, in order.
pub open spec fn package_group_rows(p: PkgObject) -> Seq<(Seq<char>, Seq<char>, Seq<char>)> {
    p.spec_data().groups@.map_values(
        |g: String| (p.spec_name(), status_spec(p.spec_data().flags.spec_bits()), g@),
    )
}

/// The rows of all packages, package after package.
pub open spec fn group_rows(pkgs: Seq<PkgObject>) -> Seq<(Seq<char>, Seq<char>, Seq<char>)>
    decreases pkgs.len(),
{
    if pkgs.len() == 0 {
        Seq::empty()
    } else {
        group_rows(pkgs.drop_last()) + package_group_rows(pkgs.last())
    }
}

pub open spec fn entry_view(e: GroupEntry) -> (Seq<char>, Seq<char>, Seq<char>) {
    (e.package@, e.status@, e.groups@)
}

/// The rows of the groups dialog for `pkgs`.
pub fn group_entries(pkgs: &Vec<PkgObject>) -> (r: Vec<GroupEntry>)
    ensures
        r@.map_values(|e: GroupEntry| entry_view(e)) == group_rows(pkgs@),
{
    let mut out: Vec<GroupEntry> = Vec::new();
    let mut i: usize = 0;
    while i < pkgs.len()
        invariant
            i <= pkgs@.len(),
            out@.map_values(|e: GroupEntry| entry_view(e)) == group_rows(pkgs@.take(i as int)),
        decreases pkgs@.len() - i,
    {
        let p = &pkgs[i];
        let groups = &p.data().groups;
        let ghost start = out@.map_values(|e: GroupEntry| entry_view(e));
        let mut j: usize = 0;
        while j < groups.len()
            invariant
                i < pkgs@.len(),
                p == &pkgs@[i as int],
                *groups == p.spec_data().groups,
                j <= groups@.len(),
                out@.map_values(|e: GroupEntry| entry_view(e)) == start + package_group_rows(
                    *p,
                ).take(j as int),
            decreases groups@.len() - j,
        {
            let mut package = String::new();
            push_str(&mut package, p.name().as_str());
            let mut status = String::new();
            push_str(&mut status, p.status());
            let g = groups[j].clone();
            let ghost prev = out@;
            out.push(GroupEntry { package, status, groups: g });
            assert(package_group_rows(*p).take(j + 1) == package_group_rows(*p).take(
                j as int,
            ).push(package_group_rows(*p)[j as int]));
            assert(out@.map_values(|e: GroupEntry| entry_view(e)) == prev.map_values(
                |e: GroupEntry| entry_view(e),
            ).push(entry_view(out@.last())));
            j = j + 1;
        }
        assert(package_group_rows(*p).take(groups@.len() as int) == package_group_rows(*p));
        assert(pkgs@.take(i + 1).drop_last() == pkgs@.take(i as int));
        i = i + 1;
    }
    assert(pkgs@.take(pkgs@.len() as int) == pkgs@);
    out
}

//------------------------------------------------------------------------------
// ENUM: GroupsSearchMode
//------------------------------------------------------------------------------
/// What the groups search looks at.
#[derive(Clone, Copy, Debug, PartialEq, Eq, Structural)]
pub enum GroupsSearchMode {
    All,
    Groups,
    Packages,
}

pub open spec fn next_groups_mode(m: GroupsSearchMode) -> GroupsSearchMode {
    match m {
        GroupsSearchMode::All => GroupsSearchMode::Groups,
        GroupsSearchMode::Groups => GroupsSearchMode::Packages,
        GroupsSearchMode::Packages => GroupsSearchMode::All,
    }
}

pub open spec fn previous_groups_mode(m: GroupsSearchMode) -> GroupsSearchMode {
    match m {
        GroupsSearchMode::All => GroupsSearchMode::Packages,
        GroupsSearchMode::Groups => GroupsSearchMode::All,
        GroupsSearchMode::Packages => GroupsSearchMode::Groups,
    }
}

impl Default for GroupsSearchMode {
    fn default() -> (r: Self)
        ensures
            r == GroupsSearchMode::All,
    {
        GroupsSearchMode::All
    }
}

impl GroupsSearchMode {
    /// The label of the mode.
    pub fn label(self) -> (r: &'static str)
        ensures
            self == GroupsSearchMode::All ==> r@ == "All"@,
            self == GroupsSearchMode::Groups ==> r@ == "Groups"@,
            self == GroupsSearchMode::Packages ==> r@ == "Packages"@,
    {
        match self {
            GroupsSearchMode::All => "All",
            GroupsSearchMode::Groups => "Groups",
            GroupsSearchMode::Packages => "Packages",
        }
    }

    pub fn next(self) -> (r: Self)
        ensures
            r == next_groups_mode(self),
    {
        match self {
            GroupsSearchMode::All => GroupsSearchMode::Groups,
            GroupsSearchMode::Groups => GroupsSearchMode::Packages,
            GroupsSearchMode::Packages => GroupsSearchMode::All,
        }
    }

    pub fn previous(self) -> (r: Self)
        ensures
            r == previous_groups_mode(self),
    {
        match self {
            GroupsSearchMode::All => GroupsSearchMode::Packages,
            GroupsSearchMode::Groups => GroupsSearchMode::All,
            GroupsSearchMode::Packages => GroupsSearchMode::Groups,
        }
    }
}

/// Cycling the groups search mode forward then back, or back then forward,
/// returns to the mode one started from.
pub proof fn law_groups_mode_cycle(m: GroupsSearchMode)
    ensures
        previous_groups_mode(next_groups_mode(m)) == m,
        next_groups_mode(previous_groups_mode(m)) == m,
{
}

//------------------------------------------------------------------------------
// Filters
//------------------------------------------------------------------------------
/// Whether a row passes the search for `term` (trimmed and lower-cased).
pub open spec fn groups_matches_spec(
    term: Seq<char>,
    mode: GroupsSearchMode,
    package: Seq<char>,
    groups: Seq<char>,
) -> bool {
    if utf8(term).len() == 0 {
        true
    } else {
        match mode {
            GroupsSearchMode::All => contains_nocase(utf8(package), utf8(term)) || contains_nocase(
                utf8(groups),
                utf8(term),
            ),
            GroupsSearchMode::Groups => contains_nocase(utf8(groups), utf8(term)),
            GroupsSearchMode::Packages => contains_nocase(utf8(package), utf8(term)),
        }
    }
}

pub fn groups_matches(term: &str, mode: GroupsSearchMode, entry: &GroupEntry) -> (r: bool)
    ensures
        r == groups_matches_spec(term@, mode, entry.package@, entry.groups@),
{
    if term.as_bytes().len() == 0 {
        return true;
    }
    match mode {
        GroupsSearchMode::All => contains_ignore_ascii_case(entry.package.as_str(), term)
            || contains_ignore_ascii_case(entry.groups.as_str(), term),
        GroupsSearchMode::Groups => contains_ignore_ascii_case(entry.groups.as_str(), term),
        GroupsSearchMode::Packages => contains_ignore_ascii_case(entry.package.as_str(), term),
    }
}

/// The search modes of the groups dialog agree: "All" passes exactly the
/// rows that "Groups" or "Packages" passes; "Packages" looks at the package
/// alone and "Groups" at the group alone; a row whose package (or group) is
/// the term itself passes; an empty term passes every row.
pub proof fn law_groups_modes(term: Seq<char>, package: Seq<char>, groups: Seq<char>, other: Seq<char>)
    ensures
        groups_matches_spec(term, GroupsSearchMode::All, package, groups) == (groups_matches_spec(
            term,
            GroupsSearchMode::Packages,
            package,
            groups,
        ) || groups_matches_spec(term, GroupsSearchMode::Groups, package, groups)),
        groups_matches_spec(term, GroupsSearchMode::Packages, package, groups) == groups_matches_spec(
            term,
            GroupsSearchMode::Packages,
            package,
            other,
        ),
        groups_matches_spec(term, GroupsSearchMode::Groups, package, groups) == groups_matches_spec(
            term,
            GroupsSearchMode::Groups,
            other,
            groups,
        ),
        package == term ==> groups_matches_spec(term, GroupsSearchMode::Packages, package, groups)
            && groups_matches_spec(term, GroupsSearchMode::All, package, groups),
        groups == term ==> groups_matches_spec(term, GroupsSearchMode::Groups, package, groups)
            && groups_matches_spec(term, GroupsSearchMode::All, package, groups),
        utf8(term).len() == 0 ==> forall|m: GroupsSearchMode| groups_matches_spec(term, m, package, groups),
{
    lemma_contains_self(utf8(term));
}

/// Whether a row passes the "installed only" filter.
pub fn installed_filter_matches(installed_only: bool, entry: &GroupEntry) -> (r: bool)
    ensures
        r == (!installed_only || entry.status@.len() > 0),
{
    if installed_only {
        entry.status.as_str().unicode_len() > 0
    } else {
        true
    }
}

/// `needle` stands in `hay` at position `i`.
pub open spec fn holds_at(hay: Seq<char>, needle: Seq<char>, i: int) -> bool {
    0 <= i && i + needle.len() <= hay.len() && hay.subrange(i, i + needle.len()) == needle
}

/// `needle` stands somewhere in `hay` (as `str::contains` finds it).
pub open spec fn holds_text(hay: Seq<char>, needle: Seq<char>) -> bool {
    exists|i: int| holds_at(hay, needle, i)
}

fn matches_at(hay: &Vec<char>, needle: &Vec<char>, start: usize) -> (r: bool)
    requires
        start + needle@.len() <= hay@.len(),
    ensures
        r == holds_at(hay@, needle@, start as int),
{
    let hl = hay.len();
    let mut j: usize = 0;
    while j < needle.len()
        invariant
            hl == hay@.len(),
            start + needle@.len() <= hay@.len(),
            j <= needle@.len(),
            forall|k: int| 0 <= k < j ==> hay@[start + k] == needle@[k],
        decreases needle@.len() - j,
    {
        if hay[start + j] != needle[j] {
            assert(hay@.subrange(start as int, start + needle@.len())[j as int] != needle@[j as int]);
            return false;
        }
        j = j + 1;
    }
    assert(hay@.subrange(start as int, start + needle@.len()) =~= needle@);
    true
}

/// Whether `needle` stands somewhere in `hay`.
pub fn contains_text(hay: &str, needle: &str) -> (r: bool)
    ensures
        r == holds_text(hay@, needle@),
{
    let h = chars_of(hay);
    let n = chars_of(needle);
    if n.len() > h.len() {
        assert forall|i: int| !holds_at(h@, n@, i) by {}
        return false;
    }
    let last = h.len() - n.len();
    let mut start: usize = 0;
    loop
        invariant
            h@ == hay@,
            n@ == needle@,
            last + n@.len() == h@.len(),
            start <= last,
            forall|s: int| 0 <= s < start ==> !holds_at(h@, n@, s),
        ensures
            start == last,
            forall|s: int| 0 <= s <= start ==> !holds_at(h@, n@, s),
        decreases last - start,
    {
        if matches_at(&h, &n, start) {
            return true;
        }
        if start == last {
            break;
        }
        start = start + 1;
    }
    assert forall|s: int| !holds_at(h@, n@, s) by {
        if 0 <= s <= start {
        }
    }
    false
}

/// Whether a row passes the search of the groups window for `text`: the
/// text lower-cased (not trimmed) must stand in the lower-cased package
/// name, group, or either, by the mode; an empty term lets every row pass.
pub open spec fn groups_window_matches_spec(
    text: Seq<char>,
    mode: GroupsSearchMode,
    package: Seq<char>,
    groups: Seq<char>,
) -> bool {
    let term = lowercase(text);
    if term.len() == 0 {
        true
    } else {
        match mode {
            GroupsSearchMode::All => holds_text(lowercase(package), term) || holds_text(
                lowercase(groups),
                term,
            ),
            GroupsSearchMode::Groups => holds_text(lowercase(groups), term),
            GroupsSearchMode::Packages => holds_text(lowercase(package), term),
        }
    }
}

/// Every text holds itself.
pub proof fn lemma_holds_self(x: Seq<char>)
    ensures
        holds_text(x, x),
{
    assert(x.subrange(0, x.len() as int) == x);
    assert(holds_at(x, x, 0));
}

/// The search modes of the groups window agree as those of the dialog do:
/// "All" passes exactly what "Packages" or "Groups" passes, each of these
/// looks at its own column alone, and a row whose package (or group)
/// lower-cases to what the text lower-cases to passes.
pub proof fn law_groups_window_modes(
    text: Seq<char>,
    package: Seq<char>,
    groups: Seq<char>,
    other: Seq<char>,
)
    ensures
        groups_window_matches_spec(text, GroupsSearchMode::All, package, groups) == (
        groups_window_matches_spec(text, GroupsSearchMode::Packages, package, groups)
            || groups_window_matches_spec(text, GroupsSearchMode::Groups, package, groups)),
        groups_window_matches_spec(text, GroupsSearchMode::Packages, package, groups)
            == groups_window_matches_spec(text, GroupsSearchMode::Packages, package, other),
        groups_window_matches_spec(text, GroupsSearchMode::Groups, package, groups)
            == groups_window_matches_spec(text, GroupsSearchMode::Groups, other, groups),
        lowercase(package) == lowercase(text) ==> groups_window_matches_spec(
            text,
            GroupsSearchMode::Packages,
            package,
            groups,
        ),
        lowercase(groups) == lowercase(text) ==> groups_window_matches_spec(
            text,
            GroupsSearchMode::Groups,
            package,
            groups,
        ),
{
    lemma_holds_self(lowercase(text));
}

pub fn groups_window_matches(text: &str, mode: GroupsSearchMode, entry: &GroupEntry) -> (r: bool)
    ensures
        r == groups_window_matches_spec(text@, mode, entry.package@, entry.groups@),
{
    let term = to_lowercase(text);
    if term.as_str().unicode_len() == 0 {
        return true;
    }
    match mode {
        GroupsSearchMode::All => {
            let p = to_lowercase(entry.package.as_str());
            if contains_text(p.as_str(), term.as_str()) {
                true
            } else {
                let g = to_lowercase(entry.groups.as_str());
                contains_text(g.as_str(), term.as_str())
            }
        },
        GroupsSearchMode::Groups => {
            let g = to_lowercase(entry.groups.as_str());
            contains_text(g.as_str(), term.as_str())
        },
        GroupsSearchMode::Packages => {
            let p = to_lowercase(entry.package.as_str());
            contains_text(p.as_str(), term.as_str())
        },
    }
}

/// Whether a row passes the "installed only" filter of the groups window,
/// which drops the rows whose status reads "not installed".
pub fn window_installed_matches(installed_only: bool, entry: &GroupEntry) -> (r: bool)
    ensures
        r == (!installed_only || entry.status@ != "not installed"@),
{
    if installed_only {
        !text_eq(entry.status.as_str(), "not installed")
    } else {
        true
    }
}

//------------------------------------------------------------------------------
// Counting
//------------------------------------------------------------------------------
/// The number of different texts in `s`.
pub open spec fn distinct_count(s: Seq<Seq<char>>) -> nat
    decreases s.len(),
{
    if s.len() == 0 {
        0
    } else {
        distinct_count(s.drop_last()) + if s.drop_last().contains(s.last()) {
            0nat
        } else {
            1nat
        }
    }
}

proof fn lemma_distinct_count_same(s: Seq<Seq<char>>)
    requires
        s.len() > 0,
        forall|i: int| 0 <= i < s.len() ==> #[trigger] s[i] == s[0],
    ensures
        distinct_count(s) == 1,
    decreases s.len(),
{
    if s.len() > 1 {
        let d = s.drop_last();
        assert(d[0] == s[0]);
        lemma_distinct_count_same(d);
        assert(d.contains(s.last()));
    } else {
        assert(distinct_count(s.drop_last()) == 0);
        assert(!s.drop_last().contains(s.last()));
    }
}

proof fn lemma_distinct_count_unique(s: Seq<Seq<char>>)
    requires
        forall|i: int, j: int| 0 <= i < j < s.len() ==> #[trigger] s[i] != #[trigger] s[j],
    ensures
        distinct_count(s) == s.len(),
    decreases s.len(),
{
    if s.len() > 0 {
        let d = s.drop_last();
        lemma_distinct_count_unique(d);
        if d.contains(s.last()) {
            let k = choose|k: int| 0 <= k < d.len() && d[k] == s.last();
            assert(s[k] == s[s.len() - 1]);
        }
    }
}

/// Counting unique packages: a package named again and again counts once,
/// and packages all named differently count one each.
pub proof fn law_distinct_count(s: Seq<Seq<char>>)
    ensures
        (s.len() > 0 && forall|i: int| 0 <= i < s.len() ==> #[trigger] s[i] == s[0])
            ==> distinct_count(s) == 1,
        (forall|i: int, j: int| 0 <= i < j < s.len() ==> #[trigger] s[i] != #[trigger] s[j])
            ==> distinct_count(s) == s.len(),
{
    if s.len() > 0 && forall|i: int| 0 <= i < s.len() ==> #[trigger] s[i] == s[0] {
        lemma_distinct_count_same(s);
    }
    if forall|i: int, j: int| 0 <= i < j < s.len() ==> #[trigger] s[i] != #[trigger] s[j] {
        lemma_distinct_count_unique(s);
    }
}

proof fn lemma_distinct_count_le(s: Seq<Seq<char>>)
    ensures
        distinct_count(s) <= s.len(),
    decreases s.len(),
{
    if s.len() > 0 {
        lemma_distinct_count_le(s.drop_last());
    }
}

/// Counts the different package names of the rows.
pub fn unique_packages(entries: &Vec<GroupEntry>) -> (r: usize)
    ensures
        r as nat == distinct_count(entries@.map_values(|e: GroupEntry| e.package@)),
{
    let ghost v = entries@.map_values(|e: GroupEntry| e.package@);
    let mut n: usize = 0;
    let mut i: usize = 0;
    while i < entries.len()
        invariant
            v == entries@.map_values(|e: GroupEntry| e.package@),
            i <= entries@.len(),
            n as nat == distinct_count(v.take(i as int)),
        decreases entries@.len() - i,
    {
        assert(v.take(i + 1).drop_last() == v.take(i as int));
        proof {
            lemma_distinct_count_le(v.take(i as int));
        }
        let mut seen = false;
        let mut j: usize = 0;
        while j < i
            invariant
                v == entries@.map_values(|e: GroupEntry| e.package@),
                i < entries@.len(),
                j <= i,
                v.len() == entries@.len(),
                seen == exists|k: int| 0 <= k < j && v[k] == v[i as int],
            decreases i - j,
        {
            let same = text_eq(entries[j].package.as_str(), entries[i].package.as_str());
            assert(v[j as int] == entries@[j as int].package@);
            assert(v[i as int] == entries@[i as int].package@);
            if same {
                seen = true;
            }
            j = j + 1;
        }
        assert(seen == v.take(i as int).contains(v[i as int])) by {
            if seen {
                let k = choose|k: int| 0 <= k < i && v[k] == v[i as int];
                assert(v.take(i as int)[k] == v[i as int]);
            }
            if v.take(i as int).contains(v[i as int]) {
                let k = choose|k: int| 0 <= k < i && v.take(i as int)[k] == v[i as int];
                assert(v[k] == v[i as int]);
            }
        }
        if !seen {
            n = n + 1;
        }
        i = i + 1;
    }
    assert(v.take(entries@.len() as int) == v);
    n
}

/// "N unique package(s) in M group(s)".
pub fn unique_label(unique: u64, sections: u64) -> (r: String)
    ensures
        r@ == decimal(unique as nat) + " unique package"@ + plural(unique as nat) + " in "@
            + decimal(sections as nat) + " group"@ + plural(sections as nat),
{
    let mut s = decimal_string(unique);
    push_str(&mut s, " unique package");
    push_str(&mut s, if unique == 1 { "" } else { "s" });
    push_str(&mut s, " in ");
    let g = decimal_string(sections);
    push_str(&mut s, g.as_str());
    push_str(&mut s, " group");
    push_str(&mut s, if sections == 1 { "" } else { "s" });
    s
}

//------------------------------------------------------------------------------
// Copying
//------------------------------------------------------------------------------
/// The copied table after the rows `s`, and the group of the last heading:
/// a heading row comes before each row whose group differs from that of the
/// heading before it (the first heading is the empty group).
pub open spec fn groups_copy_state(s: Seq<(Seq<char>, Seq<char>, Seq<char>)>) -> (
    Seq<char>,
    Seq<char>,
)
    decreases s.len(),
{
    if s.len() == 0 {
        (Seq::empty(), Seq::empty())
    } else {
        let st = groups_copy_state(s.drop_last());
        let e = s.last();
        let t = if e.2 != st.1 {
            st.0 + "|**"@ + e.2 + "**||\n"@
        } else {
            st.0
        };
        (t + "|"@ + e.0 + "|"@ + e.1 + "|\n"@, e.2)
    }
}

/// The Markdown table of the rows that the copy action puts on the
/// clipboard.
pub fn groups_markdown(entries: &Vec<GroupEntry>) -> (r: String)
    ensures
        r@ == "## Pacman Groups\n|Package Name|Status|\n|---|---|\n"@ + groups_copy_state(
            entries@.map_values(|e: GroupEntry| entry_view(e)),
        ).0,
{
    let ghost v = entries@.map_values(|e: GroupEntry| entry_view(e));
    let mut out = String::new();
    push_str(&mut out, "## Pacman Groups\n|Package Name|Status|\n|---|---|\n");
    let ghost head = out@;
    let mut groups = String::new();
    let mut i: usize = 0;
    while i < entries.len()
        invariant
            v == entries@.map_values(|e: GroupEntry| entry_view(e)),
            i <= entries@.len(),
            out@ == head + groups_copy_state(v.take(i as int)).0,
            groups@ == groups_copy_state(v.take(i as int)).1,
        decreases entries@.len() - i,
    {
        assert(v.take(i + 1).drop_last() == v.take(i as int));
        let e = &entries[i];
        if !text_eq(e.groups.as_str(), groups.as_str()) {
            push_str(&mut out, "|**");
            push_str(&mut out, e.groups.as_str());
            push_str(&mut out, "**||\n");
            groups = e.groups.clone();
        }
        push_str(&mut out, "|");
        push_str(&mut out, e.package.as_str());
        push_str(&mut out, "|");
        push_str(&mut out, e.status.as_str());
        push_str(&mut out, "|\n");
        i = i + 1;
    }
    assert(v.take(entries@.len() as int) == v);
    out
}

} // verus!
