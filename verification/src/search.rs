//! Searching, filtering and sorting the package list, and planning AUR
//! searches.
use vstd::prelude::*;
use vstd::string::StringSliceAdditionalSpecFns;

use crate::flags::PkgFlags;
use crate::pkg_object::{PkgObject, status_spec, size_text};
use crate::history::{first_named, position_of_name, lemma_first_named, lemma_first_named_found};
use crate::text::{
    chars_of, string_from_range, trim_chars, trimmed, split_whitespace, words, views, utf8, contains_nocase,
    bytes_eq_nocase, contains_ignore_ascii_case, eq_ignore_ascii_case, lemma_words_nonempty,
    lemma_utf8_nonempty, Order, text_order, list_order, int_order, reverse_order, compare_text, lemma_text_order_swap, lemma_list_order_swap, law_text_order, law_words, lemma_contains_self, is_ws,
    compare_lists, compare_i64, push_str, decimal, decimal_string, join_seqs, join_strings,
    string_of,
};

verus! {

//------------------------------------------------------------------------------
// Lower-casing
//------------------------------------------------------------------------------
/// The text that `str::to_lowercase` gives.
pub uninterp spec fn lowercase(s: Seq<char>) -> Seq<char>;

/// Lower-cases a text (`str::to_lowercase`).
///
/// Claimed of std: the result depends on the text alone; which characters
/// it maps (Unicode case rules, final sigma) is left unsaid and goes by the
/// name `lowercase`.
#[verifier::external_body]
pub(crate) fn to_lowercase(s: &str) -> (r: String)
    ensures
        r@ == lowercase(s@),
{
    s.to_lowercase()
}

/// The search term of a search text: trimmed, then lower-cased (what the
/// search entries of the dialogs keep).
pub fn normalize_term(text: &str) -> (r: String)
    ensures
        r@ == lowercase(trimmed(text@)),
{
    let chars = chars_of(text);
    let t = trim_chars(&chars);
    let ts = string_of(&t);
    to_lowercase(ts.as_str())
}

//------------------------------------------------------------------------------
// ENUM: SearchProp
//------------------------------------------------------------------------------
/// The package property that a search looks at.
#[derive(Clone, Copy, Debug, PartialEq, Eq, Structural)]
pub enum SearchProp {
    Name,
    NameDesc,
    Groups,
    Deps,
    Optdeps,
    Provides,
    Files,
}

pub open spec fn next_prop(p: SearchProp) -> SearchProp {
    match p {
        SearchProp::Name => SearchProp::NameDesc,
        SearchProp::NameDesc => SearchProp::Groups,
        SearchProp::Groups => SearchProp::Deps,
        SearchProp::Deps => SearchProp::Optdeps,
        SearchProp::Optdeps => SearchProp::Provides,
        SearchProp::Provides => SearchProp::Files,
        SearchProp::Files => SearchProp::Name,
    }
}

pub open spec fn previous_prop(p: SearchProp) -> SearchProp {
    match p {
        SearchProp::Name => SearchProp::Files,
        SearchProp::NameDesc => SearchProp::Name,
        SearchProp::Groups => SearchProp::NameDesc,
        SearchProp::Deps => SearchProp::Groups,
        SearchProp::Optdeps => SearchProp::Deps,
        SearchProp::Provides => SearchProp::Optdeps,
        SearchProp::Files => SearchProp::Provides,
    }
}

/// The short (kebab-case) name of a property.
pub open spec fn prop_nick(p: SearchProp) -> Seq<char> {
    match p {
        SearchProp::Name => "name"@,
        SearchProp::NameDesc => "name-desc"@,
        SearchProp::Groups => "groups"@,
        SearchProp::Deps => "deps"@,
        SearchProp::Optdeps => "optdeps"@,
        SearchProp::Provides => "provides"@,
        SearchProp::Files => "files"@,
    }
}

impl Default for SearchProp {
    fn default() -> (r: Self)
        ensures
            r == SearchProp::Name,
    {
        SearchProp::Name
    }
}

impl SearchProp {
    /// The next property, after the last the first.
    pub fn next(self) -> (r: Self)
        ensures
            r == next_prop(self),
    {
        match self {
            SearchProp::Name => SearchProp::NameDesc,
            SearchProp::NameDesc => SearchProp::Groups,
            SearchProp::Groups => SearchProp::Deps,
            SearchProp::Deps => SearchProp::Optdeps,
            SearchProp::Optdeps => SearchProp::Provides,
            SearchProp::Provides => SearchProp::Files,
            SearchProp::Files => SearchProp::Name,
        }
    }

    /// The previous property, before the first the last.
    pub fn previous(self) -> (r: Self)
        ensures
            r == previous_prop(self),
    {
        match self {
            SearchProp::Name => SearchProp::Files,
            SearchProp::NameDesc => SearchProp::Name,
            SearchProp::Groups => SearchProp::NameDesc,
            SearchProp::Deps => SearchProp::Groups,
            SearchProp::Optdeps => SearchProp::Deps,
            SearchProp::Provides => SearchProp::Optdeps,
            SearchProp::Files => SearchProp::Provides,
        }
    }

    /// The short name shown in the search bar's tag.
    pub fn nick(self) -> (r: &'static str)
        ensures
            r@ == prop_nick(self),
    {
        match self {
            SearchProp::Name => "name",
            SearchProp::NameDesc => "name-desc",
            SearchProp::Groups => "groups",
            SearchProp::Deps => "deps",
            SearchProp::Optdeps => "optdeps",
            SearchProp::Provides => "provides",
            SearchProp::Files => "files",
        }
    }
}

/// Cycling the search property forward then back, or back then forward,
/// returns to the property one started from; going forward through all
/// seven properties comes back to the start.
pub proof fn law_prop_cycle(p: SearchProp)
    ensures
        previous_prop(next_prop(p)) == p,
        next_prop(previous_prop(p)) == p,
        next_prop(next_prop(next_prop(next_prop(next_prop(next_prop(next_prop(p))))))) == p,
{
}

//------------------------------------------------------------------------------
// STRUCT: SearchQuery
//------------------------------------------------------------------------------
/// A package search: the lower-cased, trimmed term and its words.
#[derive(Debug)]
pub struct SearchQuery {
    pub term: String,
    pub tokens: Vec<String>,
}

impl SearchQuery {
    /// A query is well formed when its words are those of its term.
    pub open spec fn wf(&self) -> bool {
        views(self.tokens@) == words(self.term@)
    }

    /// The query of a search text.
    pub fn new(text: &str) -> (r: Self)
        ensures
            r.term@ == lowercase(trimmed(text@)),
            r.wf(),
    {
        let term = normalize_term(text);
        let chars = chars_of(term.as_str());
        let tokens = split_whitespace(&chars);
        SearchQuery { term, tokens }
    }
}

/// Whether a text passes a query: in exact mode it equals the term up to
/// ASCII case; otherwise it holds every word of the term up to ASCII case.
pub open spec fn text_matches_spec(term: Seq<char>, exact: bool, text: Seq<char>) -> bool {
    if exact {
        bytes_eq_nocase(utf8(text), utf8(term))
    } else {
        forall|k: int|
            0 <= k < words(term).len() ==> contains_nocase(utf8(text), utf8(#[trigger] words(term)[k]))
    }
}

/// Whether `text` passes the query.
pub fn text_matches(query: &SearchQuery, exact: bool, text: &str) -> (r: bool)
    requires
        query.wf(),
    ensures
        r == text_matches_spec(query.term@, exact, text@),
{
    if exact {
        return eq_ignore_ascii_case(text, query.term.as_str());
    }
    proof {
        lemma_words_nonempty(query.term@);
    }
    let mut i: usize = 0;
    while i < query.tokens.len()
        invariant
            !exact,
            query.wf(),
            i <= query.tokens@.len(),
            forall|k: int| 0 <= k < words(query.term@).len() ==> #[trigger] words(query.term@)[k].len() > 0,
            forall|k: int|
                0 <= k < i ==> contains_nocase(utf8(text@), utf8(#[trigger] words(query.term@)[k])),
        decreases query.tokens@.len() - i,
    {
        let tok = &query.tokens[i];
        assert(views(query.tokens@)[i as int] == tok@);
        assert(words(query.term@)[i as int] == tok@);
        proof {
            lemma_utf8_nonempty(tok@);
        }
        if !contains_ignore_ascii_case(text, tok.as_str()) {
            assert(!contains_nocase(utf8(text@), utf8(words(query.term@)[i as int])));
            return false;
        }
        i = i + 1;
    }
    true
}

/// Some text of `list` passes the query.
pub open spec fn any_matches_spec(term: Seq<char>, exact: bool, list: Seq<String>) -> bool {
    exists|k: int| 0 <= k < list.len() && text_matches_spec(term, exact, #[trigger] list[k]@)
}

/// Whether some text of `list` passes the query.
pub fn any_matches(query: &SearchQuery, exact: bool, list: &Vec<String>) -> (r: bool)
    requires
        query.wf(),
    ensures
        r == any_matches_spec(query.term@, exact, list@),
{
    let mut i: usize = 0;
    while i < list.len()
        invariant
            query.wf(),
            i <= list@.len(),
            forall|k: int| 0 <= k < i ==> !text_matches_spec(query.term@, exact, #[trigger] list@[k]@),
        decreases list@.len() - i,
    {
        if text_matches(query, exact, list[i].as_str()) {
            return true;
        }
        i = i + 1;
    }
    false
}

/// The description of a package, empty if it has none.
pub open spec fn description_text(pkg: PkgObject) -> Seq<char> {
    match pkg.spec_data().description {
        Some(d) => d@,
        None => Seq::empty(),
    }
}

/// Whether a package passes the search; `files` are its files (only the
/// files search looks at them).
pub open spec fn package_matches_spec(
    term: Seq<char>,
    exact: bool,
    prop: SearchProp,
    pkg: PkgObject,
    files: Seq<String>,
) -> bool {
    if utf8(term).len() == 0 {
        true
    } else {
        match prop {
            SearchProp::Name => text_matches_spec(term, exact, pkg.spec_name()),
            SearchProp::NameDesc => text_matches_spec(term, exact, pkg.spec_name())
                || text_matches_spec(term, exact, description_text(pkg)),
            SearchProp::Groups => any_matches_spec(term, exact, pkg.spec_data().groups@),
            SearchProp::Deps => any_matches_spec(term, exact, pkg.spec_data().depends@),
            SearchProp::Optdeps => any_matches_spec(term, exact, pkg.spec_data().optdepends@),
            SearchProp::Provides => any_matches_spec(term, exact, pkg.spec_data().provides@),
            SearchProp::Files => any_matches_spec(term, exact, files),
        }
    }
}

/// Whether a package passes the search filter.
pub fn package_matches(
    query: &SearchQuery,
    exact: bool,
    prop: SearchProp,
    pkg: &PkgObject,
    files: &Vec<String>,
) -> (r: bool)
    requires
        query.wf(),
    ensures
        r == package_matches_spec(query.term@, exact, prop, *pkg, files@),
{
    if query.term.as_str().as_bytes().len() == 0 {
        return true;
    }
    let data = pkg.data();
    assert(utf8(query.term@).len() != 0);
    match prop {
        SearchProp::Name => {
            let r = text_matches(query, exact, data.name.as_str());
            assert(data.name@ == pkg.spec_name());
            assert(r == text_matches_spec(query.term@, exact, pkg.spec_name()));
            r
        },
        SearchProp::NameDesc => {
            if text_matches(query, exact, data.name.as_str()) {
                true
            } else {
                match &data.description {
                    Some(d) => text_matches(query, exact, d.as_str()),
                    None => {
                        let empty = String::new();
                        text_matches(query, exact, empty.as_str())
                    },
                }
            }
        },
        SearchProp::Groups => any_matches(query, exact, &data.groups),
        SearchProp::Deps => any_matches(query, exact, &data.depends),
        SearchProp::Optdeps => any_matches(query, exact, &data.optdepends),
        SearchProp::Provides => any_matches(query, exact, &data.provides),
        SearchProp::Files => any_matches(query, exact, files),
    }
}

/// An empty term lets every package pass; otherwise a search by a list
/// property passes the packages of which some entry of that very list
/// passes the query (dependencies for `Deps`, optional dependencies for
/// `Optdeps`, and so on), and a search by name passes those whose name does.
pub proof fn law_search_reads_its_property(
    term: Seq<char>,
    exact: bool,
    pkg: PkgObject,
    files: Seq<String>,
)
    ensures
        utf8(term).len() == 0 ==> forall|p: SearchProp| package_matches_spec(term, exact, p, pkg, files),
        utf8(term).len() > 0 ==> {
            let d = pkg.spec_data();
            &&& package_matches_spec(term, exact, SearchProp::Name, pkg, files) == text_matches_spec(
                term,
                exact,
                d.name@,
            )
            &&& package_matches_spec(term, exact, SearchProp::Deps, pkg, files) <==> exists|k: int|
                0 <= k < d.depends@.len() && text_matches_spec(term, exact, #[trigger] d.depends@[k]@)
            &&& package_matches_spec(term, exact, SearchProp::Optdeps, pkg, files) <==> exists|k: int|
                0 <= k < d.optdepends@.len() && text_matches_spec(
                    term,
                    exact,
                    #[trigger] d.optdepends@[k]@,
                )
            &&& package_matches_spec(term, exact, SearchProp::Groups, pkg, files) <==> exists|k: int|
                0 <= k < d.groups@.len() && text_matches_spec(term, exact, #[trigger] d.groups@[k]@)
            &&& package_matches_spec(term, exact, SearchProp::Provides, pkg, files) <==> exists|
                k: int,
            |
                0 <= k < d.provides@.len() && text_matches_spec(
                    term,
                    exact,
                    #[trigger] d.provides@[k]@,
                )
            &&& package_matches_spec(term, exact, SearchProp::Files, pkg, files) <==> exists|k: int|
                0 <= k < files.len() && text_matches_spec(term, exact, #[trigger] files[k]@)
        },
{
}

/// A package one of whose dependencies is the search term itself passes
/// the exact dependency search, whatever its other lists hold; the same
/// for optional dependencies, groups and provided names.
pub proof fn law_search_finds_equal_entry(term: Seq<char>, pkg: PkgObject, files: Seq<String>, k: int)
    ensures
        (0 <= k < pkg.spec_data().depends@.len() && pkg.spec_data().depends@[k]@ == term)
            ==> package_matches_spec(term, true, SearchProp::Deps, pkg, files),
        (0 <= k < pkg.spec_data().optdepends@.len() && pkg.spec_data().optdepends@[k]@ == term)
            ==> package_matches_spec(term, true, SearchProp::Optdeps, pkg, files),
        (0 <= k < pkg.spec_data().groups@.len() && pkg.spec_data().groups@[k]@ == term)
            ==> package_matches_spec(term, true, SearchProp::Groups, pkg, files),
        (0 <= k < pkg.spec_data().provides@.len() && pkg.spec_data().provides@[k]@ == term)
            ==> package_matches_spec(term, true, SearchProp::Provides, pkg, files),
        pkg.spec_name() == term ==> package_matches_spec(term, true, SearchProp::Name, pkg, files),
{
    let d = pkg.spec_data();
    assert(bytes_eq_nocase(utf8(term), utf8(term)));
    if 0 <= k < d.depends@.len() && d.depends@[k]@ == term {
        assert(text_matches_spec(term, true, d.depends@[k]@));
    }
    if 0 <= k < d.optdepends@.len() && d.optdepends@[k]@ == term {
        assert(text_matches_spec(term, true, d.optdepends@[k]@));
    }
    if 0 <= k < d.groups@.len() && d.groups@[k]@ == term {
        assert(text_matches_spec(term, true, d.groups@[k]@));
    }
    if 0 <= k < d.provides@.len() && d.provides@[k]@ == term {
        assert(text_matches_spec(term, true, d.provides@[k]@));
    }
}

/// A search that is not exact looks for each word of the term: a term of
/// one word passes the texts that hold it up to ASCII case, a term of two
/// words those that hold both; so a package with a dependency that is the
/// one-word term itself passes the dependency search.
pub proof fn law_word_search(
    a: Seq<char>,
    b: Seq<char>,
    text: Seq<char>,
    pkg: PkgObject,
    files: Seq<String>,
    k: int,
)
    requires
        a.len() > 0,
        b.len() > 0,
        forall|i: int| 0 <= i < a.len() ==> !is_ws(#[trigger] a[i]),
        forall|i: int| 0 <= i < b.len() ==> !is_ws(#[trigger] b[i]),
    ensures
        text_matches_spec(a, false, text) == contains_nocase(utf8(text), utf8(a)),
        text_matches_spec(a + seq![' '] + b, false, text) == (contains_nocase(utf8(text), utf8(a))
            && contains_nocase(utf8(text), utf8(b))),
        (0 <= k < pkg.spec_data().depends@.len() && pkg.spec_data().depends@[k]@ == a)
            ==> package_matches_spec(a, false, SearchProp::Deps, pkg, files),
{
    law_words(a, b);
    assert(words(a)[0] == a);
    let t2 = a + seq![' '] + b;
    assert(words(t2)[0] == a && words(t2)[1] == b);
    lemma_utf8_nonempty(a);
    if 0 <= k < pkg.spec_data().depends@.len() && pkg.spec_data().depends@[k]@ == a {
        lemma_contains_self(utf8(a));
        assert(text_matches_spec(a, false, pkg.spec_data().depends@[k]@));
    }
}

/// Whether a package passes the status filter: it shares a bit with the
/// selected status.
pub fn status_matches(pkg: &PkgObject, status_id: PkgFlags) -> (r: bool)
    ensures
        r == (((pkg.spec_data().flags.spec_bits() | (if pkg.spec_update_version().is_some() {
            32u32
        } else {
            0u32
        })) & status_id.spec_bits()) != 0),
{
    let flags = pkg.flags();
    let ghost b = pkg.spec_data().flags.spec_bits();
    assert(b | 0 == b) by (bit_vector);
    flags.intersects(status_id)
}

//------------------------------------------------------------------------------
// ENUM: SortProp
//------------------------------------------------------------------------------
/// The property the package list is sorted by.
#[derive(Clone, Copy, Debug, PartialEq, Eq, Structural)]
pub enum SortProp {
    Name,
    Repository,
    Status,
    InstallDate,
    InstalledSize,
    Groups,
}

/// The order of optional dates: none comes first.
pub open spec fn date_order(a: Option<i64>, b: Option<i64>) -> Order {
    match (a, b) {
        (None, None) => Order::Equal,
        (None, Some(_)) => Order::Less,
        (Some(_), None) => Order::Greater,
        (Some(x), Some(y)) => int_order(x as int, y as int),
    }
}

/// The order of two packages by a property, reversed for a descending sort.
pub open spec fn package_order(a: PkgObject, b: PkgObject, prop: SortProp, ascending: bool) -> Order {
    let o = match prop {
        SortProp::Name => text_order(a.spec_name(), b.spec_name()),
        SortProp::Repository => text_order(
            a.spec_data().repository@,
            b.spec_data().repository@,
        ),
        SortProp::Status => text_order(
            status_spec(a.spec_data().flags.spec_bits()),
            status_spec(b.spec_data().flags.spec_bits()),
        ),
        SortProp::InstallDate => date_order(a.spec_data().install_date, b.spec_data().install_date),
        SortProp::InstalledSize => int_order(
            a.spec_data().install_size as int,
            b.spec_data().install_size as int,
        ),
        SortProp::Groups => list_order(views(a.spec_data().groups@), views(b.spec_data().groups@)),
    };
    if ascending {
        o
    } else {
        reverse_order(o)
    }
}

fn compare_dates(a: Option<i64>, b: Option<i64>) -> (r: Order)
    ensures
        r == date_order(a, b),
{
    match (a, b) {
        (None, None) => Order::Equal,
        (None, Some(_)) => Order::Less,
        (Some(_), None) => Order::Greater,
        (Some(x), Some(y)) => compare_i64(x, y),
    }
}

/// Compares two packages for the sorted list.
pub fn compare_packages(a: &PkgObject, b: &PkgObject, prop: SortProp, ascending: bool) -> (r:
    Order)
    ensures
        r == package_order(*a, *b, prop, ascending),
{
    let da = a.data();
    let db = b.data();
    let o = match prop {
        SortProp::Name => compare_text(da.name.as_str(), db.name.as_str()),
        SortProp::Repository => compare_text(da.repository.as_str(), db.repository.as_str()),
        SortProp::Status => compare_text(a.status(), b.status()),
        SortProp::InstallDate => compare_dates(da.install_date, db.install_date),
        SortProp::InstalledSize => compare_i64(da.install_size, db.install_size),
        SortProp::Groups => compare_lists(&da.groups, &db.groups),
    };
    if ascending {
        o
    } else {
        o.reverse()
    }
}

/// The icon and tooltip of the sort button: the current direction, and
/// what a click turns it to.
pub fn sort_button_display(ascending: bool) -> (r: (&'static str, &'static str))
    ensures
        ascending ==> r.0@ == "view-sort-ascending-symbolic"@ && r.1@ == "Sort Descending"@,
        !ascending ==> r.0@ == "view-sort-descending-symbolic"@ && r.1@ == "Sort Ascending"@,
{
    if ascending {
        ("view-sort-ascending-symbolic", "Sort Descending")
    } else {
        ("view-sort-descending-symbolic", "Sort Ascending")
    }
}

/// Sorting descending gives the reverse of the ascending order.
pub proof fn law_descending_reverses(a: PkgObject, b: PkgObject, prop: SortProp)
    ensures
        package_order(a, b, prop, false) == reverse_order(package_order(a, b, prop, true)),
{
}

/// Sorting by install date follows the timestamps: ascending, the package
/// installed earlier comes first (the later one first when descending), and
/// a package without a date comes before one with a date.
pub proof fn law_install_date_order(a: PkgObject, b: PkgObject)
    ensures
        (a.spec_data().install_date matches Some(x) && b.spec_data().install_date matches Some(y)
            && x < y) ==> package_order(a, b, SortProp::InstallDate, true) == Order::Less
            && package_order(a, b, SortProp::InstallDate, false) == Order::Greater,
        (a.spec_data().install_date matches Some(x) && b.spec_data().install_date matches Some(y)
            && x > y) ==> package_order(a, b, SortProp::InstallDate, true) == Order::Greater
            && package_order(a, b, SortProp::InstallDate, false) == Order::Less,
        a.spec_data().install_date == b.spec_data().install_date ==> package_order(
            a,
            b,
            SortProp::InstallDate,
            true,
        ) == Order::Equal,
        (a.spec_data().install_date is None && b.spec_data().install_date is Some) ==> package_order(
            a,
            b,
            SortProp::InstallDate,
            true,
        ) == Order::Less,
{
}

/// Sorting by name follows the order of the names as `str` orders them:
/// ascending, a name before a longer one that begins with it, and at the
/// first differing character the smaller code point first; descending the
/// other way round.
pub proof fn law_name_order(a: PkgObject, b: PkgObject, p: Seq<char>, x: char, y: char, s: Seq<char>, t: Seq<char>)
    ensures
        (a.spec_name() == p && b.spec_name() == p + s && s.len() > 0) ==> package_order(
            a,
            b,
            SortProp::Name,
            true,
        ) == Order::Less && package_order(a, b, SortProp::Name, false) == Order::Greater,
        (a.spec_name() == p + seq![x] + s && b.spec_name() == p + seq![y] + t && (x as u32) < (
        y as u32)) ==> package_order(a, b, SortProp::Name, true) == Order::Less && package_order(
            a,
            b,
            SortProp::Name,
            false,
        ) == Order::Greater,
{
    law_text_order(p, x, y, s, t);
}

/// Sorting by installed size follows the sizes: ascending, the smaller
/// package comes first, and the larger one first when descending.
pub proof fn law_installed_size_order(a: PkgObject, b: PkgObject)
    ensures
        a.spec_data().install_size < b.spec_data().install_size ==> package_order(
            a,
            b,
            SortProp::InstalledSize,
            true,
        ) == Order::Less && package_order(a, b, SortProp::InstalledSize, false) == Order::Greater,
        a.spec_data().install_size == b.spec_data().install_size ==> package_order(
            a,
            b,
            SortProp::InstalledSize,
            true,
        ) == Order::Equal,
{
}

/// Comparing two packages the other way round gives the reverse order, for
/// every property and direction.
pub proof fn law_swap_reverses(a: PkgObject, b: PkgObject, prop: SortProp, ascending: bool)
    ensures
        package_order(b, a, prop, ascending) == reverse_order(package_order(a, b, prop, ascending)),
{
    match prop {
        SortProp::Name => lemma_text_order_swap(a.spec_name(), b.spec_name(), 0),
        SortProp::Repository => lemma_text_order_swap(
            a.spec_data().repository@,
            b.spec_data().repository@,
            0,
        ),
        SortProp::Status => lemma_text_order_swap(
            status_spec(a.spec_data().flags.spec_bits()),
            status_spec(b.spec_data().flags.spec_bits()),
            0,
        ),
        SortProp::Groups => lemma_list_order_swap(
            views(a.spec_data().groups@),
            views(b.spec_data().groups@),
            0,
        ),
        _ => {},
    }
}

//------------------------------------------------------------------------------
// AUR search
//------------------------------------------------------------------------------
/// The AUR field a search is made by.
#[derive(Clone, Copy, Debug, PartialEq, Eq, Structural)]
pub enum AurSearchField {
    Name,
    NameDesc,
    Groups,
    Depends,
    OptDepends,
    Provides,
}

/// Why an AUR search is not made.
#[derive(Clone, Copy, Debug, PartialEq, Eq, Structural)]
pub enum AurSearchError {
    /// The term has fewer than two bytes.
    QueryTooSmall,
    /// The AUR cannot be searched by files.
    FilesSearch,
    /// The searches returned no list.
    NoResults,
}

impl AurSearchError {
    /// The message of the error.
    pub fn message(self) -> (r: &'static str)
        ensures
            self == AurSearchError::QueryTooSmall ==> r@ == "Query arg too small."@,
            self == AurSearchError::FilesSearch ==> r@ == "Cannot search by files."@,
            self == AurSearchError::NoResults ==> r@ == "failed to parse search results"@,
    {
        match self {
            AurSearchError::QueryTooSmall => "Query arg too small.",
            AurSearchError::FilesSearch => "Cannot search by files.",
            AurSearchError::NoResults => "failed to parse search results",
        }
    }
}

/// The AUR field of a search property, if the AUR can be searched by it.
pub open spec fn aur_field_of(prop: SearchProp) -> Option<AurSearchField> {
    match prop {
        SearchProp::Name => Some(AurSearchField::Name),
        SearchProp::NameDesc => Some(AurSearchField::NameDesc),
        SearchProp::Groups => Some(AurSearchField::Groups),
        SearchProp::Deps => Some(AurSearchField::Depends),
        SearchProp::Optdeps => Some(AurSearchField::OptDepends),
        SearchProp::Provides => Some(AurSearchField::Provides),
        SearchProp::Files => None,
    }
}

/// The AUR field to search by for `term` and `prop`: an error if the term
/// has fewer than two bytes, or if the files are to be searched.
pub fn aur_search_field(term: &str, prop: SearchProp) -> (r: Result<
    AurSearchField,
    AurSearchError,
>)
    ensures
        term.spec_bytes().len() < 2 ==> r == Err::<AurSearchField, AurSearchError>(
            AurSearchError::QueryTooSmall,
        ),
        term.spec_bytes().len() >= 2 && prop == SearchProp::Files ==> r == Err::<
            AurSearchField,
            AurSearchError,
        >(AurSearchError::FilesSearch),
        term.spec_bytes().len() >= 2 && prop != SearchProp::Files ==> r == Ok::<
            AurSearchField,
            AurSearchError,
        >(aur_field_of(prop).unwrap()),
{
    if term.as_bytes().len() < 2 {
        return Err(AurSearchError::QueryTooSmall);
    }
    match prop {
        SearchProp::Name => Ok(AurSearchField::Name),
        SearchProp::NameDesc => Ok(AurSearchField::NameDesc),
        SearchProp::Groups => Ok(AurSearchField::Groups),
        SearchProp::Deps => Ok(AurSearchField::Depends),
        SearchProp::Optdeps => Ok(AurSearchField::OptDepends),
        SearchProp::Provides => Ok(AurSearchField::Provides),
        SearchProp::Files => Err(AurSearchError::FilesSearch),
    }
}

/// `list` holds a string of view `name`.
pub open spec fn list_holds(list: Seq<String>, name: Seq<char>) -> bool {
    exists|k: int| 0 <= k < list.len() && #[trigger] list[k]@ == name
}

/// `name` is the name of a package of every list after the first.
pub open spec fn in_all_rest(lists: Seq<Vec<String>>, name: Seq<char>) -> bool {
    forall|j: int| 1 <= j < lists.len() ==> list_holds(#[trigger] lists[j]@, name)
}

/// The names of the first list, in order, that every other list holds.
pub open spec fn common_names_spec(lists: Seq<Vec<String>>) -> Seq<Seq<char>> {
    views(lists[0]@).filter(|n: Seq<char>| in_all_rest(lists, n))
}

/// Every list after the first has an entry that reads `x`.
pub open spec fn found_in_each_other(lists: Seq<Vec<String>>, x: Seq<char>) -> bool {
    forall|j: int| 1 <= j < lists.len() ==> list_holds(#[trigger] lists[j]@, x)
}

/// The names an AUR search by several words finds are the names of the
/// first word's results that every other word's results hold too: a name
/// is found exactly when the first list holds it and so does each other
/// list.
pub proof fn law_common_names(lists: Seq<Vec<String>>, x: Seq<char>)
    requires
        lists.len() > 0,
    ensures
        common_names_spec(lists).contains(x) <==> (views(lists[0]@).contains(x)
            && found_in_each_other(lists, x)),
{
    let first = views(lists[0]@);
    let pred = |n: Seq<char>| in_all_rest(lists, n);
    assert(common_names_spec(lists) == first.filter(pred));
    if first.filter(pred).contains(x) {
        first.lemma_filter_contains_rev(pred, x);
        let i = choose|i: int| 0 <= i < first.filter(pred).len() && first.filter(pred)[i] == x;
        first.lemma_filter_pred(pred, i);
        assert(in_all_rest(lists, x));
        assert(found_in_each_other(lists, x));
        assert(first.contains(x));
    }
    if views(lists[0]@).contains(x) && found_in_each_other(lists, x) {
        let i = choose|i: int| 0 <= i < first.len() && first[i] == x;
        assert(pred(first[i]));
        first.lemma_filter_contains(pred, i);
        assert(first.filter(pred).contains(x));
    }
}

fn list_has(list: &Vec<String>, name: &String) -> (r: bool)
    ensures
        r == list_holds(list@, name@),
{
    let mut i: usize = 0;
    while i < list.len()
        invariant
            i <= list@.len(),
            forall|k: int| 0 <= k < i ==> #[trigger] list@[k]@ != name@,
        decreases list@.len() - i,
    {
        if list[i] == *name {
            return true;
        }
        i = i + 1;
    }
    false
}

fn in_all_rest_exec(lists: &Vec<Vec<String>>, name: &String) -> (r: bool)
    ensures
        r == in_all_rest(lists@, name@),
{
    let mut j: usize = 1;
    while j < lists.len()
        invariant
            1 <= j,
            forall|jj: int| 1 <= jj < j && jj < lists@.len() ==> list_holds(#[trigger] lists@[jj]@, name@),
        decreases lists@.len() - j,
    {
        if !list_has(&lists[j], name) {
            return false;
        }
        j = j + 1;
    }
    true
}

/// The package names that match every word of an AUR search: those of the
/// first word's results that the other words' results also hold. An error
/// when there are no result lists.
pub fn common_names(lists: &Vec<Vec<String>>) -> (r: Result<Vec<String>, AurSearchError>)
    ensures
        lists@.len() == 0 ==> r == Err::<Vec<String>, AurSearchError>(AurSearchError::NoResults),
        lists@.len() > 0 ==> r is Ok && views(r->Ok_0@) == common_names_spec(lists@),
{
    if lists.len() == 0 {
        return Err(AurSearchError::NoResults);
    }
    let first = &lists[0];
    let ghost pred = |n: Seq<char>| in_all_rest(lists@, n);
    let mut out: Vec<String> = Vec::new();
    let mut i: usize = 0;
    proof {
        reveal_with_fuel(Seq::filter, 1);
        assert(views(first@).take(0) =~= Seq::<Seq<char>>::empty());
        assert(views(out@) =~= Seq::<Seq<char>>::empty());
    }
    while i < first.len()
        invariant
            lists@.len() > 0,
            first@ == lists@[0]@,
            i <= first@.len(),
            pred == (|n: Seq<char>| in_all_rest(lists@, n)),
            views(out@) == views(first@).take(i as int).filter(pred),
        decreases first@.len() - i,
    {
        let name = &first[i];
        let ghost prev = out@;
        assert(views(first@).take(i + 1).drop_last() == views(first@).take(i as int));
        assert(views(first@).take(i + 1).last() == name@);
        proof {
            reveal_with_fuel(Seq::filter, 1);
        }
        if in_all_rest_exec(lists, name) {
            out.push(name.clone());
            assert(views(out@) == views(prev).push(name@));
        }
        i = i + 1;
    }
    assert(views(first@).take(first@.len() as int) == views(first@));
    Ok(out)
}

//------------------------------------------------------------------------------
// Labels and copying
//------------------------------------------------------------------------------
/// "s" after a count other than one.
pub open spec fn plural(n: nat) -> Seq<char> {
    if n == 1 {
        ""@
    } else {
        "s"@
    }
}

/// "N matching package(s)".
pub fn matching_label(n: u32) -> (r: String)
    ensures
        r@ == decimal(n as nat) + " matching package"@ + plural(n as nat),
{
    let mut s = decimal_string(n as u64);
    push_str(&mut s, " matching package");
    if n == 1 {
        push_str(&mut s, "");
    } else {
        push_str(&mut s, "s");
    }
    s
}

/// One row of the copied package table.
pub open spec fn package_row(p: PkgObject) -> Seq<char> {
    "|"@ + p.spec_name() + "|"@ + p.spec_data().version@ + "|"@ + p.spec_data().repository@ + "|"@
        + status_spec(p.spec_data().flags.spec_bits()) + "|"@ + size_text(
        p.spec_data().install_size as int,
    ) + "|"@ + join_seqs(views(p.spec_data().groups@), " | "@) + "|\n"@
}

pub open spec fn package_rows(pkgs: Seq<PkgObject>) -> Seq<char>
    decreases pkgs.len(),
{
    if pkgs.len() == 0 {
        Seq::empty()
    } else {
        package_rows(pkgs.drop_last()) + package_row(pkgs.last())
    }
}

fn package_row_string(p: &PkgObject) -> (r: String)
    ensures
        r@ == package_row(*p),
{
    let mut out = String::new();
    push_str(&mut out, "|");
    push_str(&mut out, p.name().as_str());
    push_str(&mut out, "|");
    push_str(&mut out, p.version().as_str());
    push_str(&mut out, "|");
    push_str(&mut out, p.repository().as_str());
    push_str(&mut out, "|");
    push_str(&mut out, p.status());
    push_str(&mut out, "|");
    let size = p.install_size_string();
    push_str(&mut out, size.as_str());
    push_str(&mut out, "|");
    let groups = join_strings(&p.data().groups, " | ");
    push_str(&mut out, groups.as_str());
    push_str(&mut out, "|\n");
    out
}

/// The Markdown table of packages that the copy action puts on the
/// clipboard.
pub fn package_list_markdown(pkgs: &Vec<PkgObject>) -> (r: String)
    ensures
        r@ == "## Package List\n|Package Name|Version|Repository|Status|Installed Size|Groups|\n|---|---|---|---|---:|---|\n"@
            + package_rows(pkgs@),
{
    let mut out = String::new();
    push_str(
        &mut out,
        "## Package List\n|Package Name|Version|Repository|Status|Installed Size|Groups|\n|---|---|---|---|---:|---|\n",
    );
    let ghost head = out@;
    let mut i: usize = 0;
    while i < pkgs.len()
        invariant
            i <= pkgs@.len(),
            out@ == head + package_rows(pkgs@.take(i as int)),
        decreases pkgs@.len() - i,
    {
        let row = package_row_string(&pkgs[i]);
        push_str(&mut out, row.as_str());
        assert(pkgs@.take(i + 1).drop_last() == pkgs@.take(i as int));
        i = i + 1;
    }
    assert(pkgs@.take(pkgs@.len() as int) == pkgs@);
    out
}

//------------------------------------------------------------------------------
// Updates
//------------------------------------------------------------------------------
/// The version that the first `u` updates give to the package at `k`: that
/// of the last of them whose name is first found at `k`.
pub open spec fn update_at(
    pkgs: Seq<PkgObject>,
    updates: Seq<(String, String)>,
    u: int,
    k: int,
) -> Option<String>
    decreases u,
{
    if u <= 0 {
        None
    } else if first_named(pkgs, updates[u - 1].0@) == Some(k) {
        Some(updates[u - 1].1)
    } else {
        update_at(pkgs, updates, u - 1, k)
    }
}

proof fn lemma_update_at_found(pkgs: Seq<PkgObject>, updates: Seq<(String, String)>, v: int, k: int, u: int)
    requires
        forall|i: int, j: int|
            0 <= i < j < updates.len() ==> (#[trigger] updates[i]).0@ != (#[trigger] updates[j]).0@,
        0 <= u < v <= updates.len(),
        0 <= k < pkgs.len(),
        pkgs[k].spec_name() == updates[u].0@,
        forall|j: int| 0 <= j < k ==> #[trigger] pkgs[j].spec_name() != updates[u].0@,
    ensures
        update_at(pkgs, updates, v, k) == Some(updates[u].1),
    decreases v,
{
    if v == u + 1 {
        lemma_first_named(pkgs, updates[u].0@, k);
    } else {
        lemma_first_named_found(pkgs, updates[v - 1].0@);
        assert(updates[u].0@ != updates[v - 1].0@);
        lemma_update_at_found(pkgs, updates, v - 1, k, u);
    }
}

proof fn lemma_update_at_none(pkgs: Seq<PkgObject>, updates: Seq<(String, String)>, v: int, k: int)
    requires
        0 <= v <= updates.len(),
        0 <= k < pkgs.len(),
        forall|u: int| 0 <= u < updates.len() ==> (#[trigger] updates[u]).0@ != pkgs[k].spec_name(),
    ensures
        update_at(pkgs, updates, v, k) is None,
    decreases v,
{
    if v > 0 {
        lemma_first_named_found(pkgs, updates[v - 1].0@);
        lemma_update_at_none(pkgs, updates, v - 1, k);
    }
}

/// Marking updates: the first package named in an update gets that
/// update's version, and a package whose name no update gives keeps no
/// new version.
pub proof fn law_update_versions(pkgs: Seq<PkgObject>, updates: Seq<(String, String)>, u: int, k: int)
    requires
        forall|i: int, j: int|
            0 <= i < j < updates.len() ==> (#[trigger] updates[i]).0@ != (#[trigger] updates[j]).0@,
    ensures
        (0 <= u < updates.len() && 0 <= k < pkgs.len() && pkgs[k].spec_name() == updates[u].0@
            && forall|j: int| 0 <= j < k ==> #[trigger] pkgs[j].spec_name() != updates[u].0@)
            ==> update_at(pkgs, updates, updates.len() as int, k) == Some(updates[u].1),
        (0 <= k < pkgs.len() && forall|w: int|
            0 <= w < updates.len() ==> (#[trigger] updates[w]).0@ != pkgs[k].spec_name())
            ==> update_at(pkgs, updates, updates.len() as int, k) is None,
{
    if 0 <= u < updates.len() && 0 <= k < pkgs.len() && pkgs[k].spec_name() == updates[u].0@
        && forall|j: int| 0 <= j < k ==> #[trigger] pkgs[j].spec_name() != updates[u].0@ {
        lemma_update_at_found(pkgs, updates, updates.len() as int, k, u);
    }
    if 0 <= k < pkgs.len() && forall|w: int|
        0 <= w < updates.len() ==> (#[trigger] updates[w]).0@ != pkgs[k].spec_name() {
        lemma_update_at_none(pkgs, updates, updates.len() as int, k);
    }
}

/// Marks the packages that have an update: for each (name, version) the
/// first package of that name gets the version. The updates map names to
/// versions, so no name comes twice.
pub fn apply_updates(pkgs: &mut Vec<PkgObject>, updates: &Vec<(String, String)>)
    requires
        forall|i: int, j: int|
            0 <= i < j < updates@.len() ==> (#[trigger] updates@[i]).0@ != (#[trigger] updates@[j]).0@,
    ensures
        final(pkgs)@.len() == old(pkgs)@.len(),
        forall|k: int|
            0 <= k < old(pkgs)@.len() ==> {
                &&& #[trigger] final(pkgs)@[k].spec_data() == old(pkgs)@[k].spec_data()
                &&& final(pkgs)@[k].spec_update_version() == match update_at(
                    old(pkgs)@,
                    updates@,
                    updates@.len() as int,
                    k,
                ) {
                    Some(v) => Some(v),
                    None => old(pkgs)@[k].spec_update_version(),
                }
            },
{
    let ghost orig = pkgs@;
    let mut u: usize = 0;
    while u < updates.len()
        invariant
            u <= updates@.len(),
            pkgs@.len() == orig.len(),
            forall|k: int|
                0 <= k < orig.len() ==> {
                    &&& #[trigger] pkgs@[k].spec_data() == orig[k].spec_data()
                    &&& pkgs@[k].spec_update_version() == match update_at(
                        orig,
                        updates@,
                        u as int,
                        k,
                    ) {
                        Some(v) => Some(v),
                        None => orig[k].spec_update_version(),
                    }
                },
        decreases updates@.len() - u,
    {
        let name = &updates[u].0;
        let ghost before = pkgs@;
        match position_of_name(pkgs, name) {
            Some(p) => {
                proof {
                    assert forall|j: int| 0 <= j < p implies #[trigger] orig[j].spec_name()
                        != name@ by {
                        assert(before[j].spec_data() == orig[j].spec_data());
                        assert(before[j].spec_name() != name@);
                    }
                    assert(before[p as int].spec_data() == orig[p as int].spec_data());
                    lemma_first_named(orig, name@, p as int);
                }
                let version = updates[u].1.clone();
                pkgs[p].set_update_version(Some(version));
                assert forall|k: int| 0 <= k < orig.len() implies {
                    &&& #[trigger] pkgs@[k].spec_data() == orig[k].spec_data()
                    &&& pkgs@[k].spec_update_version() == match update_at(
                        orig,
                        updates@,
                        u + 1,
                        k,
                    ) {
                        Some(v) => Some(v),
                        None => orig[k].spec_update_version(),
                    }
                } by {
                    if k != p {
                        assert(pkgs@[k] == before[k]);
                    }
                }
            },
            None => {
                proof {
                    assert forall|j: int| 0 <= j < orig.len() implies #[trigger] orig[j].spec_name()
                        != name@ by {
                        assert(before[j].spec_data() == orig[j].spec_data());
                        assert(before[j].spec_name() != name@);
                    }
                    if first_named(orig, name@) is Some {
                        let i = first_named(orig, name@).unwrap();
                        assert(orig[i].spec_name() == name@);
                    }
                }
            },
        }
        u = u + 1;
    }
}

//------------------------------------------------------------------------------
// AUR status of the search bar
//------------------------------------------------------------------------------
/// What the search bar shows after an AUR search: on failure, the error
/// style and the error button with the message less its last character.
#[derive(Debug)]
pub struct AurStatusDisplay {
    pub error_style: bool,
    pub error_visible: bool,
    pub error_label: String,
}

pub fn aur_status_display(status: &Result<(), String>) -> (r: AurStatusDisplay)
    ensures
        match *status {
            Ok(()) => !r.error_style && !r.error_visible && r.error_label@.len() == 0,
            Err(e) => {
                &&& r.error_style
                &&& r.error_visible
                &&& r.error_label@ == if e@.len() == 0 {
                    e@
                } else {
                    e@.drop_last()
                }
            },
        },
{
    match status {
        Ok(()) => AurStatusDisplay {
            error_style: false,
            error_visible: false,
            error_label: String::new(),
        },
        Err(e) => {
            let chars = chars_of(e.as_str());
            let n = chars.len();
            let label = if n == 0 {
                String::new()
            } else {
                string_from_range(&chars, 0, n - 1)
            };
            proof {
                if n > 0 {
                    assert(chars@.subrange(0, n - 1) == e@.drop_last());
                }
            }
            AurStatusDisplay { error_style: true, error_visible: true, error_label: label }
        },
    }
}

} // verus!
