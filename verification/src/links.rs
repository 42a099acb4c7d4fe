//! The links of a property value: the mail address of a packager, and the
//! package names of a list of dependencies. Spans are byte offsets into the
//! text, as the text layout takes them.
use vstd::prelude::*;

use vstd::string::StringSliceAdditionalSpecFns;

use crate::text::{push_str, text_eq};
use crate::pkg_object::PkgObject;
use crate::pkg_object::has_name;
use crate::history::{first_named, position_of_name, lemma_first_named};

verus! {

//------------------------------------------------------------------------------
// Packager
//------------------------------------------------------------------------------
/// The first index of byte `c` in `b` from `i` on.
pub open spec fn first_byte(b: Seq<u8>, i: int, c: u8) -> Option<int>
    decreases b.len() - i,
{
    if i < 0 || i >= b.len() {
        None
    } else if b[i] == c {
        Some(i)
    } else {
        first_byte(b, i + 1, c)
    }
}

/// The span of the mail address of a packager `Name <address>`: the whole
/// text is a nonempty name without `<`, then `<`, a nonempty address
/// without `>`, and `>` at the end.
pub open spec fn packager_span_spec(b: Seq<u8>) -> Option<(int, int)> {
    match first_byte(b, 0, 60u8) {
        None => None,
        Some(p) => {
            let e = b.len() - 1;
            if p >= 1 && p + 1 < e && b[e] == 62u8 && first_byte(b, p + 1, 62u8) == Some(e) {
                Some((p + 1, e))
            } else {
                None
            }
        },
    }
}

proof fn lemma_first_byte(b: Seq<u8>, i: int, c: u8)
    ensures
        first_byte(b, i, c) matches Some(p) ==> 0 <= i <= p < b.len() && b[p] == c && forall|
            k: int,
        |
            i <= k < p ==> b[k] != c,
        first_byte(b, i, c) is None ==> forall|k: int| 0 <= i <= k < b.len() ==> b[k] != c,
    decreases b.len() - i,
{
    if 0 <= i < b.len() && b[i] != c {
        lemma_first_byte(b, i + 1, c);
    }
}

proof fn lemma_first_byte_at(b: Seq<u8>, i: int, c: u8, p: int)
    requires
        0 <= i <= p < b.len(),
        b[p] == c,
        forall|k: int| i <= k < p ==> b[k] != c,
    ensures
        first_byte(b, i, c) == Some(p),
    decreases p - i,
{
    if i < p {
        lemma_first_byte_at(b, i + 1, c, p);
    }
}

/// The link of a packager `Name <address>` is the address: for a name
/// without `<` and an address without `>`, both not empty, the span is
/// that of the address; a text without `<` has no link.
pub proof fn law_packager_link(n: Seq<u8>, a: Seq<u8>, other: Seq<u8>)
    requires
        n.len() > 0,
        a.len() > 0,
        forall|i: int| 0 <= i < n.len() ==> n[i] != 60u8,
        forall|i: int| 0 <= i < a.len() ==> a[i] != 62u8,
    ensures
        packager_span_spec(n + seq![60u8] + a + seq![62u8]) == Some(
            (n.len() as int + 1, n.len() as int + 1 + a.len()),
        ),
        (forall|i: int| 0 <= i < other.len() ==> other[i] != 60u8) ==> packager_span_spec(other)
            is None,
{
    let b = n + seq![60u8] + a + seq![62u8];
    let p = n.len() as int;
    let e = b.len() - 1;
    assert forall|k: int| 0 <= k < p implies b[k] != 60u8 by {
        assert(b[k] == n[k]);
    }
    lemma_first_byte_at(b, 0, 60u8, p);
    assert forall|k: int| p + 1 <= k < e implies b[k] != 62u8 by {
        assert(b[k] == a[k - p - 1]);
    }
    lemma_first_byte_at(b, p + 1, 62u8, e);
    lemma_first_byte(other, 0, 60u8);
}

fn find_byte(b: &[u8], i: usize, c: u8) -> (r: Option<usize>)
    ensures
        r matches Some(p) ==> first_byte(b@, i as int, c) == Some(p as int),
        r is None ==> first_byte(b@, i as int, c) is None,
{
    let mut k = i;
    while k < b.len()
        invariant
            i <= k,
            first_byte(b@, i as int, c) == first_byte(b@, k as int, c),
        decreases b@.len() - k,
    {
        if b[k] == c {
            return Some(k);
        }
        k = k + 1;
    }
    None
}

/// The byte span of the packager's mail address, if the text has one.
pub fn packager_span(text: &str) -> (r: Option<(usize, usize)>)
    ensures
        match packager_span_spec(text.spec_bytes()) {
            Some((s, e)) => r == Some((s as usize, e as usize)),
            None => r.is_none(),
        },
{
    let b = text.as_bytes();
    match find_byte(b, 0, 60u8) {
        None => None,
        Some(p) => {
            proof {
                lemma_first_byte(b@, 0, 60u8);
            }
            if b.len() < 1 {
                return None;
            }
            let e = b.len() - 1;
            if p >= 1 && p + 1 < e && b[e] == 62u8 {
                match find_byte(b, p + 1, 62u8) {
                    Some(q) => if q == e {
                        Some((p + 1, e))
                    } else {
                        None
                    },
                    None => None,
                }
            } else {
                None
            }
        },
    }
}

//------------------------------------------------------------------------------
// Package lists
//------------------------------------------------------------------------------
/// A byte of a package name: a letter, a digit or one of `@._+-`.
pub open spec fn is_name_byte(c: u8) -> bool {
    (97u8 <= c <= 122u8) || (65u8 <= c <= 90u8) || (48u8 <= c <= 57u8) || c == 64u8 || c == 46u8
        || c == 95u8 || c == 43u8 || c == 45u8
}

/// The end of the run of name bytes that starts at `q`.
pub open spec fn run_end(b: Seq<u8>, q: int) -> int
    decreases b.len() - q,
{
    if q < 0 || q >= b.len() || !is_name_byte(b[q]) {
        q
    } else {
        run_end(b, q + 1)
    }
}

/// Five spaces (the list separator) start at `s`.
pub open spec fn spaces_at(b: Seq<u8>, s: int) -> bool {
    0 <= s && s + 5 <= b.len() && forall|k: int| s <= k < s + 5 ==> b[k] == 32u8
}

/// What may follow a name: the end, one of `<>=:`, or a separator.
pub open spec fn name_end_ok(b: Seq<u8>, t: int) -> bool {
    t == b.len() || (0 <= t < b.len() && (b[t] == 60u8 || b[t] == 62u8 || b[t] == 61u8 || b[t]
        == 58u8)) || spaces_at(b, t)
}

/// The end of a name starting at `q` that the list grammar accepts.
pub open spec fn name_at(b: Seq<u8>, q: int) -> Option<int> {
    if 0 <= q < b.len() && is_name_byte(b[q]) && name_end_ok(b, run_end(b, q)) {
        Some(run_end(b, q))
    } else {
        None
    }
}

/// The name matched when the search stands at `s`: at the very start of
/// the text, or after a separator that starts at `s`.
pub open spec fn match_at(b: Seq<u8>, s: int) -> Option<(int, int)> {
    if s == 0 && name_at(b, 0) is Some {
        Some((0, name_at(b, 0).unwrap()))
    } else if spaces_at(b, s) && name_at(b, s + 5) is Some {
        Some((s + 5, name_at(b, s + 5).unwrap()))
    } else {
        None
    }
}

proof fn lemma_run_end(b: Seq<u8>, q: int)
    requires
        0 <= q <= b.len(),
    ensures
        q <= run_end(b, q) <= b.len(),
        forall|k: int| q <= k < run_end(b, q) ==> is_name_byte(#[trigger] b[k]),
        run_end(b, q) < b.len() ==> !is_name_byte(b[run_end(b, q)]),
    decreases b.len() - q,
{
    if q < b.len() && is_name_byte(b[q]) {
        lemma_run_end(b, q + 1);
    }
}

proof fn lemma_match_at(b: Seq<u8>, s: int)
    requires
        0 <= s <= b.len(),
    ensures
        match_at(b, s) matches Some((q, t)) ==> s <= q < t <= b.len(),
{
    if s == 0 && name_at(b, 0) is Some {
        lemma_run_end(b, 0);
    } else if spaces_at(b, s) && name_at(b, s + 5) is Some {
        lemma_run_end(b, s + 5);
    }
}

/// The names of a list, leftmost first, each search going on where the
/// last name ended.
pub open spec fn link_spans_from(b: Seq<u8>, i: int) -> Seq<(int, int)>
    decreases b.len() - i,
{
    if i < 0 || i > b.len() {
        Seq::empty()
    } else {
        match match_at(b, i) {
            Some((q, t)) => if i < t <= b.len() {
                seq![(q, t)] + link_spans_from(b, t)
            } else {
                Seq::empty()
            },
            None => if i < b.len() {
                link_spans_from(b, i + 1)
            } else {
                Seq::empty()
            },
        }
    }
}

/// The links of a list lie within the text, in order and apart: each
/// span starts at or after where the search began and ends by the end of
/// the text, and each ends at or before the next one starts.
pub proof fn law_link_spans_ordered(b: Seq<u8>, i: int)
    requires
        0 <= i <= b.len(),
    ensures
        forall|k: int|
            0 <= k < link_spans_from(b, i).len() ==> i <= (#[trigger] link_spans_from(b, i)[k]).0
                < link_spans_from(b, i)[k].1 <= b.len(),
        forall|k: int|
            0 <= k < link_spans_from(b, i).len() - 1 ==> (#[trigger] link_spans_from(b, i)[k]).1
                <= link_spans_from(b, i)[k + 1].0,
    decreases b.len() - i,
{
    lemma_match_at(b, i);
    match match_at(b, i) {
        Some((q, t)) => {
            if i < t <= b.len() {
                law_link_spans_ordered(b, t);
                let rest = link_spans_from(b, t);
                assert(link_spans_from(b, i) == seq![(q, t)] + rest);
                assert forall|k: int| 0 <= k < link_spans_from(b, i).len() implies i <= (
                #[trigger] link_spans_from(b, i)[k]).0 < link_spans_from(b, i)[k].1 <= b.len() by {
                    if k > 0 {
                        assert(link_spans_from(b, i)[k] == rest[k - 1]);
                    }
                }
                assert forall|k: int| 0 <= k < link_spans_from(b, i).len() - 1 implies (
                #[trigger] link_spans_from(b, i)[k]).1 <= link_spans_from(b, i)[k + 1].0 by {
                    if k > 0 {
                        assert(link_spans_from(b, i)[k] == rest[k - 1]);
                    }
                    assert(link_spans_from(b, i)[k + 1] == rest[k]);
                }
            }
        },
        None => {
            if i < b.len() {
                law_link_spans_ordered(b, i + 1);
                assert(link_spans_from(b, i) == link_spans_from(b, i + 1));
            }
        },
    }
}

proof fn lemma_run_end_at(b: Seq<u8>, q: int, m: int)
    requires
        0 <= q <= m <= b.len(),
        forall|k: int| q <= k < m ==> is_name_byte(#[trigger] b[k]),
        m < b.len() ==> !is_name_byte(b[m]),
    ensures
        run_end(b, q) == m,
    decreases m - q,
{
    if q < m {
        lemma_run_end_at(b, q + 1, m);
    }
}

/// A package name at the start of a list is a link when the end of the
/// text, one of `<`, `>`, `=`, `:`, or a separator of five spaces follows
/// it: the links of the list begin with the span of that name, and a text
/// that is just a name is one link. A name is a nonempty run of letters,
/// digits and `@._+-`.
pub proof fn law_leading_name_is_link(n: Seq<u8>, c: u8, v: Seq<u8>)
    requires
        n.len() > 0,
        forall|i: int|
            0 <= i < n.len() ==> {
                let x = #[trigger] n[i];
                (97u8 <= x <= 122u8) || (65u8 <= x <= 90u8) || (48u8 <= x <= 57u8) || x == 64u8
                    || x == 46u8 || x == 95u8 || x == 43u8 || x == 45u8
            },
        c == 60u8 || c == 62u8 || c == 61u8 || c == 58u8,
    ensures
        link_spans_from(n + seq![c] + v, 0).len() > 0,
        link_spans_from(n + seq![c] + v, 0)[0] == (0int, n.len() as int),
        link_spans_from(n + seq![32u8, 32u8, 32u8, 32u8, 32u8] + v, 0).len() > 0,
        link_spans_from(n + seq![32u8, 32u8, 32u8, 32u8, 32u8] + v, 0)[0] == (0int, n.len() as int),
        link_spans_from(n, 0) == seq![(0int, n.len() as int)],
{
    let m = n.len() as int;
    let b1 = n + seq![c] + v;
    assert forall|k: int| 0 <= k < m implies is_name_byte(#[trigger] b1[k]) by {
        assert(b1[k] == n[k]);
    }
    assert(b1[m] == c);
    lemma_run_end_at(b1, 0, m);
    assert(name_end_ok(b1, m));
    assert(match_at(b1, 0) == Some((0int, m)));
    assert(link_spans_from(b1, 0) == seq![(0int, m)] + link_spans_from(b1, m));

    let sp = seq![32u8, 32u8, 32u8, 32u8, 32u8];
    let b2 = n + sp + v;
    assert forall|k: int| 0 <= k < m implies is_name_byte(#[trigger] b2[k]) by {
        assert(b2[k] == n[k]);
    }
    assert(b2[m] == 32u8);
    lemma_run_end_at(b2, 0, m);
    assert forall|k: int| m <= k < m + 5 implies b2[k] == 32u8 by {
        assert(b2[k] == sp[k - m]);
    }
    assert(spaces_at(b2, m));
    assert(match_at(b2, 0) == Some((0int, m)));
    assert(link_spans_from(b2, 0) == seq![(0int, m)] + link_spans_from(b2, m));

    assert forall|k: int| 0 <= k < m implies is_name_byte(#[trigger] n[k]) by {}
    lemma_run_end_at(n, 0, m);
    assert(match_at(n, 0) == Some((0int, m)));
    assert(match_at(n, m) is None);
    assert(link_spans_from(n, m) == Seq::<(int, int)>::empty());
    assert(link_spans_from(n, 0) == seq![(0int, m)] + link_spans_from(n, m));
}

fn run_end_exec(b: &[u8], q: usize) -> (r: usize)
    requires
        q <= b@.len(),
    ensures
        r as int == run_end(b@, q as int),
{
    let mut k = q;
    while k < b.len() && ((97u8 <= b[k] && b[k] <= 122u8) || (65u8 <= b[k] && b[k] <= 90u8) || (
    48u8 <= b[k] && b[k] <= 57u8) || b[k] == 64u8 || b[k] == 46u8 || b[k] == 95u8 || b[k] == 43u8
        || b[k] == 45u8)
        invariant
            q <= k <= b@.len(),
            run_end(b@, q as int) == run_end(b@, k as int),
        decreases b@.len() - k,
    {
        k = k + 1;
    }
    k
}

fn spaces_at_exec(b: &[u8], s: usize) -> (r: bool)
    ensures
        r == spaces_at(b@, s as int),
{
    if s > b.len() || b.len() - s < 5 {
        return false;
    }
    let mut k = s;
    while k < s + 5
        invariant
            s <= k <= s + 5,
            s + 5 <= b@.len(),
            b@.len() == b.len(),
            forall|j: int| s <= j < k ==> b@[j] == 32u8,
        decreases s + 5 - k,
    {
        if b[k] != 32u8 {
            return false;
        }
        k = k + 1;
    }
    true
}

fn name_at_exec(b: &[u8], q: usize) -> (r: Option<usize>)
    requires
        q <= b@.len(),
    ensures
        r matches Some(t) ==> name_at(b@, q as int) == Some(t as int),
        r is None ==> name_at(b@, q as int) is None,
{
    if q >= b.len() {
        return None;
    }
    let c = b[q];
    if !((97u8 <= c && c <= 122u8) || (65u8 <= c && c <= 90u8) || (48u8 <= c && c <= 57u8) || c
        == 64u8 || c == 46u8 || c == 95u8 || c == 43u8 || c == 45u8) {
        return None;
    }
    let t = run_end_exec(b, q);
    proof {
        lemma_run_end(b@, q as int);
    }
    let ok = t == b.len() || b[t] == 60u8 || b[t] == 62u8 || b[t] == 61u8 || b[t] == 58u8
        || spaces_at_exec(b, t);
    if ok {
        Some(t)
    } else {
        None
    }
}

fn match_at_exec(b: &[u8], s: usize) -> (r: Option<(usize, usize)>)
    requires
        s <= b@.len(),
    ensures
        r matches Some((q, t)) ==> match_at(b@, s as int) == Some((q as int, t as int)),
        r is None ==> match_at(b@, s as int) is None,
{
    if s == 0 {
        match name_at_exec(b, 0) {
            Some(t) => {
                return Some((0, t));
            },
            None => {},
        }
    }
    if spaces_at_exec(b, s) {
        assert(b@.len() == b.len());
        match name_at_exec(b, s + 5) {
            Some(t) => Some((s + 5, t)),
            None => None,
        }
    } else {
        None
    }
}

/// The byte spans of the package names of a list of dependencies: each a
/// run of letters, digits and `@._+-` at the start or after a separator
/// of five spaces, followed by the end, one of `<>=:` or a separator.
pub fn link_list_spans(text: &str) -> (r: Vec<(usize, usize)>)
    ensures
        r@.map_values(|p: (usize, usize)| (p.0 as int, p.1 as int)) == link_spans_from(
            text.spec_bytes(),
            0,
        ),
{
    let b = text.as_bytes();
    let ghost bs = b@;
    let mut out: Vec<(usize, usize)> = Vec::new();
    let mut i: usize = 0;
    while i < b.len()
        invariant
            bs == b@,
            bs.len() == b.len(),
            i <= b@.len(),
            out@.map_values(|p: (usize, usize)| (p.0 as int, p.1 as int)) + link_spans_from(
                bs,
                i as int,
            ) == link_spans_from(bs, 0),
        decreases b@.len() - i,
    {
        proof {
            lemma_match_at(bs, i as int);
        }
        match match_at_exec(b, i) {
            Some((q, t)) => {
                let ghost prev = out@.map_values(|p: (usize, usize)| (p.0 as int, p.1 as int));
                out.push((q, t));
                assert(out@.map_values(|p: (usize, usize)| (p.0 as int, p.1 as int)) == prev.push(
                    (q as int, t as int),
                ));
                assert(link_spans_from(bs, i as int) == seq![(q as int, t as int)]
                    + link_spans_from(bs, t as int));
                assert(prev.push((q as int, t as int)) + link_spans_from(bs, t as int) == prev
                    + link_spans_from(bs, i as int));
                i = t;
            },
            None => {
                i = i + 1;
            },
        }
    }
    assert(i == bs.len());
    assert(match_at(bs, i as int) is None);
    assert(link_spans_from(bs, i as int) == Seq::<(int, int)>::empty());
    assert(out@.map_values(|p: (usize, usize)| (p.0 as int, p.1 as int)) + Seq::<(int, int)>::empty()
        == out@.map_values(|p: (usize, usize)| (p.0 as int, p.1 as int)));
    out
}

/// The address a package link opens: `pkg://` and the name.
pub fn link_target(name: &str) -> (r: String)
    ensures
        r@ == "pkg://"@ + name@,
{
    let mut s = String::new();
    push_str(&mut s, "pkg://");
    push_str(&mut s, name);
    s
}

//------------------------------------------------------------------------------
// Following a package link
//------------------------------------------------------------------------------
/// What a package link asks for: the name, with the version requirement
/// after it when the link has one (`glibc>=2.38`).
pub fn link_query(name: &str, version: Option<&str>) -> (r: String)
    ensures
        r@ == name@ + match version {
            Some(v) => v@,
            None => Seq::empty(),
        },
{
    let mut s = String::new();
    push_str(&mut s, name);
    match version {
        Some(v) => push_str(&mut s, v),
        None => {},
    }
    s
}

/// The first package of `list` from `i` on that provides `link` exactly.
pub open spec fn first_providing(list: Seq<PkgObject>, link: Seq<char>, i: int) -> Option<int>
    decreases list.len() - i,
{
    if i < 0 || i >= list.len() {
        None
    } else if has_name(list[i].spec_data().provides@, link) {
        Some(i)
    } else {
        first_providing(list, link, i + 1)
    }
}

/// Where a followed link leads.
#[derive(Clone, Copy, Debug, PartialEq, Eq, Structural)]
pub enum LinkTarget {
    /// A package of the package list, by position.
    Package(usize),
    /// A result of the AUR search, by position.
    Aur(usize),
}

/// The package a link leads to: the package of the list named as the
/// installed or sync package that satisfies the link (`satisfier`, as
/// pacman's databases answer), else the first AUR result of the link's
/// name, else the first AUR result that provides the link.
pub open spec fn link_target_spec(
    link: Seq<char>,
    name: Seq<char>,
    satisfier: Option<Seq<char>>,
    pkgs: Seq<PkgObject>,
    aur: Seq<PkgObject>,
) -> Option<LinkTarget> {
    let from_db = match satisfier {
        Some(n) => first_named(pkgs, n),
        None => None,
    };
    if from_db is Some {
        Some(LinkTarget::Package(from_db.unwrap() as usize))
    } else if first_named(aur, name) is Some {
        Some(LinkTarget::Aur(first_named(aur, name).unwrap() as usize))
    } else if first_providing(aur, link, 0) is Some {
        Some(LinkTarget::Aur(first_providing(aur, link, 0).unwrap() as usize))
    } else {
        None
    }
}

/// Following a link looks in the package databases first: the package of
/// the list named as the satisfier wins whatever the AUR results hold;
/// without one, the first AUR result of the link's name; and a link that
/// nothing answers leads nowhere.
pub proof fn law_link_lookup_order(
    link: Seq<char>,
    name: Seq<char>,
    n: Seq<char>,
    pkgs: Seq<PkgObject>,
    aur: Seq<PkgObject>,
    i: int,
    j: int,
)
    ensures
        (0 <= i < pkgs.len() && pkgs[i].spec_name() == n && forall|k: int|
            0 <= k < i ==> #[trigger] pkgs[k].spec_name() != n) ==> link_target_spec(
            link,
            name,
            Some(n),
            pkgs,
            aur,
        ) == Some(LinkTarget::Package(i as usize)),
        (0 <= j < aur.len() && aur[j].spec_name() == name && forall|k: int|
            0 <= k < j ==> #[trigger] aur[k].spec_name() != name) ==> link_target_spec(
            link,
            name,
            None,
            pkgs,
            aur,
        ) == Some(LinkTarget::Aur(j as usize)),
        (aur.len() == 0) ==> link_target_spec(link, name, None, pkgs, aur) is None,
{
    if 0 <= i < pkgs.len() && pkgs[i].spec_name() == n && forall|k: int|
        0 <= k < i ==> #[trigger] pkgs[k].spec_name() != n {
        lemma_first_named(pkgs, n, i);
    }
    if 0 <= j < aur.len() && aur[j].spec_name() == name && forall|k: int|
        0 <= k < j ==> #[trigger] aur[k].spec_name() != name {
        lemma_first_named(aur, name, j);
    }
}

fn provides_exactly(provides: &Vec<String>, link: &str) -> (r: bool)
    ensures
        r == has_name(provides@, link@),
{
    let mut i: usize = 0;
    while i < provides.len()
        invariant
            i <= provides@.len(),
            forall|k: int| 0 <= k < i ==> provides@[k]@ != link@,
        decreases provides@.len() - i,
    {
        if text_eq(provides[i].as_str(), link) {
            return true;
        }
        i = i + 1;
    }
    false
}

/// Finds where a package link leads.
pub fn follow_link(
    link: &str,
    name: &String,
    satisfier: Option<&String>,
    pkgs: &Vec<PkgObject>,
    aur: &Vec<PkgObject>,
) -> (r: Option<LinkTarget>)
    ensures
        r == link_target_spec(
            link@,
            name@,
            match satisfier {
                Some(n) => Some(n@),
                None => None,
            },
            pkgs@,
            aur@,
        ),
{
    match satisfier {
        Some(n) => match position_of_name(pkgs, n) {
            Some(i) => {
                return Some(LinkTarget::Package(i));
            },
            None => {},
        },
        None => {},
    }
    match position_of_name(aur, name) {
        Some(i) => {
            return Some(LinkTarget::Aur(i));
        },
        None => {},
    }
    let mut i: usize = 0;
    while i < aur.len()
        invariant
            i <= aur@.len(),
            first_providing(aur@, link@, 0) == first_providing(aur@, link@, i as int),
            first_named(aur@, name@) is None,
            match satisfier {
                Some(n) => first_named(pkgs@, n@) is None,
                None => true,
            },
        decreases aur@.len() - i,
    {
        if provides_exactly(&aur[i].data().provides, link) {
            return Some(LinkTarget::Aur(i));
        }
        i = i + 1;
    }
    None
}

} // verus!
