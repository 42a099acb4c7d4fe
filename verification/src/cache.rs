//! Package cache files: which files of the cache belong to a package, the
//! search filter over file names, and the cache dialog's labels and copy.
use vstd::prelude::*;

use crate::text::{
    contains_ignore_ascii_case, contains_nocase, utf8, push_str, decimal, decimal_string,
    chars_of, string_from_range, views, lemma_contains_in_stretch,
};
use crate::search::plural;
use crate::pkg_object::{format_size, size_text};

verus! {

//------------------------------------------------------------------------------
// Text helpers
//------------------------------------------------------------------------------
/// `needle` occurs in `hay` as a run of characters.
pub open spec fn contains_text(hay: Seq<char>, needle: Seq<char>) -> bool {
    exists|i: int|
        0 <= i && i + needle.len() <= hay.len() && #[trigger] hay.subrange(i, i + needle.len())
            == needle
}

/// Whether `needle` occurs in `hay` from position `start`.
fn occurs_at(hay: &Vec<char>, needle: &Vec<char>, start: usize) -> (r: bool)
    requires
        start + needle@.len() <= hay@.len(),
    ensures
        r == (hay@.subrange(start as int, start + needle@.len()) == needle@),
{
    let mut k: usize = 0;
    while k < needle.len()
        invariant
            start + needle@.len() <= hay@.len(),
            hay@.len() == hay.len(),
            k <= needle@.len(),
            forall|j: int| 0 <= j < k ==> hay@[start + j] == needle@[j],
        decreases needle@.len() - k,
    {
        if hay[start + k] != needle[k] {
            assert(hay@.subrange(start as int, start + needle@.len())[k as int] != needle@[k as int]);
            return false;
        }
        k = k + 1;
    }
    assert(hay@.subrange(start as int, start + needle@.len()) == needle@);
    true
}

/// Whether `needle` occurs in `hay` (`str::contains`).
pub fn contains_str(hay: &str, needle: &str) -> (r: bool)
    ensures
        r == contains_text(hay@, needle@),
{
    let h = chars_of(hay);
    let n = chars_of(needle);
    if n.len() > h.len() {
        return false;
    }
    let last = h.len() - n.len();
    let mut i: usize = 0;
    while i < last
        invariant
            h@ == hay@,
            n@ == needle@,
            last + n@.len() == h@.len(),
            i <= last,
            forall|j: int| 0 <= j < i ==> #[trigger] h@.subrange(j, j + n@.len()) != n@,
        decreases last - i,
    {
        if occurs_at(&h, &n, i) {
            return true;
        }
        i = i + 1;
    }
    occurs_at(&h, &n, last)
}

/// Whether `s` begins with `prefix` (`str::starts_with`).
pub fn starts_with_str(s: &str, prefix: &str) -> (r: bool)
    ensures
        r == prefix@.is_prefix_of(s@),
{
    let h = chars_of(s);
    let p = chars_of(prefix);
    if p.len() > h.len() {
        return false;
    }
    let r = occurs_at(&h, &p, 0);
    assert(r == (h@.subrange(0, p@.len() as int) == p@));
    r
}

//------------------------------------------------------------------------------
// Blacklist
//------------------------------------------------------------------------------
/// Installed packages whose cache files also start with `pkg_name`'s: the
/// names that begin with it and differ from it.
pub open spec fn in_blacklist(name: Seq<char>, pkg_name: Seq<char>) -> bool {
    pkg_name.is_prefix_of(name) && name != pkg_name
}

/// The names of `installed` that begin with `pkg_name` and are not it, in
/// their order.
pub fn cache_blacklist(installed: &Vec<String>, pkg_name: &str) -> (r: Vec<String>)
    ensures
        views(r@) == views(installed@).filter(|n: Seq<char>| in_blacklist(n, pkg_name@)),
{
    let ghost keep = |n: Seq<char>| in_blacklist(n, pkg_name@);
    let mut r: Vec<String> = Vec::new();
    let mut i: usize = 0;
    while i < installed.len()
        invariant
            i <= installed@.len(),
            keep == (|n: Seq<char>| in_blacklist(n, pkg_name@)),
            views(r@) == views(installed@).take(i as int).filter(keep),
        decreases installed@.len() - i,
    {
        let name = &installed[i];
        proof {
            reveal_with_fuel(Seq::filter, 1);
            assert(views(installed@).take(i + 1).drop_last() == views(installed@).take(i as int));
        }
        if starts_with_str(name.as_str(), pkg_name) && !crate::text::text_eq(
            name.as_str(),
            pkg_name,
        ) {
            r.push(name.clone());
            assert(views(r@) == views(installed@).take(i as int).filter(keep).push(name@));
        }
        i = i + 1;
    }
    assert(views(installed@).take(installed@.len() as int) == views(installed@));
    r
}

/// A cache file is kept unless it holds the name of a blacklisted package.
pub open spec fn cache_file_kept(file: Seq<char>, blacklist: Seq<Seq<char>>) -> bool {
    forall|k: int| 0 <= k < blacklist.len() ==> !contains_text(file, #[trigger] blacklist[k])
}

/// The cache files of `files` that hold none of the blacklisted names, in
/// their order.
pub fn package_cache_files(files: &Vec<String>, blacklist: &Vec<String>) -> (r: Vec<String>)
    ensures
        views(r@) == views(files@).filter(|f: Seq<char>| cache_file_kept(f, views(blacklist@))),
{
    let ghost keep = |f: Seq<char>| cache_file_kept(f, views(blacklist@));
    let mut r: Vec<String> = Vec::new();
    let mut i: usize = 0;
    while i < files.len()
        invariant
            i <= files@.len(),
            keep == (|f: Seq<char>| cache_file_kept(f, views(blacklist@))),
            views(r@) == views(files@).take(i as int).filter(keep),
        decreases files@.len() - i,
    {
        let file = &files[i];
        let mut excluded = false;
        let mut j: usize = 0;
        while j < blacklist.len()
            invariant
                i < files@.len(),
                file@ == views(files@)[i as int],
                j <= blacklist@.len(),
                excluded == exists|k: int|
                    0 <= k < j && contains_text(file@, #[trigger] views(blacklist@)[k]),
            decreases blacklist@.len() - j,
        {
            let hit = contains_str(file.as_str(), blacklist[j].as_str());
            assert(views(blacklist@)[j as int] == blacklist@[j as int]@);
            if hit {
                excluded = true;
            }
            j = j + 1;
        }
        proof {
            reveal_with_fuel(Seq::filter, 1);
            assert(views(files@).take(i + 1).drop_last() == views(files@).take(i as int));
            if excluded {
                let k = choose|k: int|
                    0 <= k < blacklist@.len() && contains_text(file@, #[trigger] views(blacklist@)[k]);
                assert(!cache_file_kept(file@, views(blacklist@)));
            }
        }
        if !excluded {
            r.push(file.clone());
            assert(views(r@) == views(files@).take(i as int).filter(keep).push(file@));
        }
        i = i + 1;
    }
    assert(views(files@).take(files@.len() as int) == views(files@));
    r
}

/// A file name whose extension is `zst`: it ends with `.zst` and has
/// something before the dot.
pub open spec fn zst_file(file_name: Seq<char>) -> bool {
    ".zst"@.is_suffix_of(file_name) && file_name.len() > 4
}

/// Whether a file of the cache directory is a package: its extension is
/// `zst`.
pub fn is_zst_file(file_name: &str) -> (r: bool)
    ensures
        r == zst_file(file_name@),
{
    let f = chars_of(file_name);
    let n = f.len();
    let r = n > 4 && f[n - 4] == '.' && f[n - 3] == 'z' && f[n - 2] == 's' && f[n - 1] == 't';
    proof {
        reveal_strlit(".zst");
        if r {
            assert(f@.subrange(n - 4, n as int) == ".zst"@);
        } else if zst_file(f@) {
            assert(f@.subrange(n - 4, n as int) == ".zst"@);
            assert(f@[n - 4] == ".zst"@[0]);
            assert(f@[n - 3] == ".zst"@[1]);
            assert(f@[n - 2] == ".zst"@[2]);
            assert(f@[n - 1] == ".zst"@[3]);
        }
    }
    r
}

/// A file name that the cache pattern `NAME*.zst` of a package matches: it
/// starts with the package name and ends with `.zst`, the two apart.
pub open spec fn cache_glob_matches(file_name: Seq<char>, pkg_name: Seq<char>) -> bool {
    &&& pkg_name.is_prefix_of(file_name)
    &&& ".zst"@.is_suffix_of(file_name)
    &&& pkg_name.len() + 4 <= file_name.len()
}

/// Whether the cache pattern of package `pkg_name` matches `file_name`.
pub fn cache_glob(file_name: &str, pkg_name: &str) -> (r: bool)
    ensures
        r == cache_glob_matches(file_name@, pkg_name@),
{
    let f = chars_of(file_name);
    let p = chars_of(pkg_name);
    if p.len() > f.len() || f.len() - p.len() < 4 {
        return false;
    }
    let n = f.len();
    let ext = n >= 4 && f[n - 4] == '.' && f[n - 3] == 'z' && f[n - 2] == 's' && f[n - 1] == 't';
    proof {
        reveal_strlit(".zst");
        if ext {
            assert(f@.subrange(n - 4, n as int) == ".zst"@);
        } else if ".zst"@.is_suffix_of(f@) {
            assert(f@.subrange(n - 4, n as int) == ".zst"@);
            assert(f@[n - 4] == ".zst"@[0]);
            assert(f@[n - 3] == ".zst"@[1]);
            assert(f@[n - 2] == ".zst"@[2]);
            assert(f@[n - 1] == ".zst"@[3]);
        }
    }
    ext && starts_with_str(file_name, pkg_name)
}

//------------------------------------------------------------------------------
// STRUCT: CacheObject
//------------------------------------------------------------------------------
/// A file of the package cache: its path and file name.
#[derive(Debug)]
pub struct CacheObject {
    pub path: String,
    pub filename: String,
}

/// The part of a path after its last `/` (the whole path when it has none).
pub open spec fn file_name_of(p: Seq<char>) -> Seq<char>
    decreases p.len(),
{
    if p.len() == 0 {
        p
    } else if p.last() == '/' {
        Seq::empty()
    } else {
        file_name_of(p.drop_last()).push(p.last())
    }
}

/// `file_name_of` taken from position `end` back.
proof fn lemma_file_name_suffix(p: Seq<char>, start: int)
    requires
        0 <= start <= p.len(),
        start == 0 || p[start - 1] == '/',
        forall|k: int| start <= k < p.len() ==> p[k] != '/',
    ensures
        file_name_of(p) == p.subrange(start, p.len() as int),
    decreases p.len(),
{
    if p.len() == start {
        if start > 0 {
            assert(p.last() == '/');
        }
    } else {
        lemma_file_name_suffix(p.drop_last(), start);
        assert(p.subrange(start, p.len() as int) == p.drop_last().subrange(
            start,
            p.len() - 1,
        ).push(p.last()));
    }
}

/// Which cache files belong to a package: a file named after the package,
/// then anything, then `.zst` is one of its files; an installed package
/// whose name is the package's name with more after it is in the
/// package's blacklist (the package itself is not); a file that holds the
/// name of a package of the blacklist is left out, and with an empty
/// blacklist every file is kept; the file name of a path is what follows
/// its last `/`.
pub proof fn law_cache_files_of_package(
    pkg: Seq<char>,
    mid: Seq<char>,
    more: Seq<char>,
    blacklist: Seq<Seq<char>>,
    k: int,
    pre: Seq<char>,
    post: Seq<char>,
    dir: Seq<char>,
    file: Seq<char>,
)
    ensures
        cache_glob_matches(pkg + mid + ".zst"@, pkg),
        in_blacklist(pkg + more, pkg) == (more.len() > 0),
        0 <= k < blacklist.len() ==> !cache_file_kept(pre + blacklist[k] + post, blacklist),
        cache_file_kept(file, Seq::empty()),
        (forall|i: int| 0 <= i < file.len() ==> file[i] != '/') ==> file_name_of(dir + "/"@ + file)
            == file,
{
    reveal_strlit(".zst");
    reveal_strlit("/");
    let f = pkg + mid + ".zst"@;
    assert(f.subrange(0, pkg.len() as int) =~= pkg);
    assert(f.subrange(f.len() - 4, f.len() as int) =~= ".zst"@);
    let n = pkg + more;
    assert(n.subrange(0, pkg.len() as int) =~= pkg);
    if more.len() == 0 {
        assert(n =~= pkg);
    } else {
        assert(n.len() != pkg.len());
    }
    if 0 <= k < blacklist.len() {
        let h = pre + blacklist[k] + post;
        let i0: int = pre.len() as int;
        assert(h.subrange(i0, i0 + blacklist[k].len()) =~= blacklist[k]);
        assert(contains_text(h, blacklist[k]));
    }
    if forall|i: int| 0 <= i < file.len() ==> file[i] != '/' {
        let p = dir + "/"@ + file;
        let st: int = dir.len() as int + 1;
        assert forall|j: int| st <= j < p.len() implies p[j] != '/' by {
            assert(p[j] == file[j - st]);
        }
        assert(p[st - 1] == '/');
        lemma_file_name_suffix(p, st);
        assert(p.subrange(st, p.len() as int) =~= file);
    }
}

impl CacheObject {
    pub fn new(path: &str) -> (r: Self)
        ensures
            r.path@ == path@,
            r.filename@ == file_name_of(path@),
    {
        let v = chars_of(path);
        let mut start: usize = v.len();
        while start > 0 && v[start - 1] != '/'
            invariant
                v@ == path@,
                start <= v@.len(),
                forall|k: int| start <= k < v@.len() ==> v@[k] != '/',
            decreases start,
        {
            start = start - 1;
        }
        proof {
            lemma_file_name_suffix(v@, start as int);
        }
        let filename = string_from_range(&v, start, v.len());
        let mut p = String::new();
        push_str(&mut p, path);
        CacheObject { path: p, filename }
    }
}

//------------------------------------------------------------------------------
// Filter and labels
//------------------------------------------------------------------------------
/// Whether a cache file passes the search for `term` (trimmed and
/// lower-cased): every file when the term is empty, else the file whose
/// name holds it up to ASCII case.
pub open spec fn cache_matches_spec(term: Seq<char>, filename: Seq<char>) -> bool {
    utf8(term).len() == 0 || contains_nocase(utf8(filename), utf8(term))
}

/// A cache file passes the search when its name holds the term up to
/// ASCII case: a file whose name is the term, or the term with anything
/// before and after it, passes; an empty term passes every file.
pub proof fn law_cache_search(term: Seq<char>, before: Seq<u8>, after: Seq<u8>, filename: Seq<char>)
    ensures
        utf8(filename) == before + utf8(term) + after ==> cache_matches_spec(term, filename),
        utf8(term).len() == 0 ==> cache_matches_spec(term, filename),
{
    lemma_contains_in_stretch(utf8(term), before, after);
}

pub fn cache_matches(term: &str, obj: &CacheObject) -> (r: bool)
    ensures
        r == cache_matches_spec(term@, obj.filename@),
{
    if term.as_bytes().len() == 0 {
        return true;
    }
    contains_ignore_ascii_case(obj.filename.as_str(), term)
}

/// "N file(s)".
pub fn files_label(n: u64) -> (r: String)
    ensures
        r@ == decimal(n as nat) + " file"@ + plural(n as nat),
{
    let mut s = decimal_string(n);
    push_str(&mut s, " file");
    push_str(&mut s, if n == 1 { "" } else { "s" });
    s
}

/// "Cache size on disk: SIZE" for a count of 512-byte blocks.
pub fn cache_size_label(blocks: u64) -> (r: String)
    requires
        blocks * 512 <= i64::MAX,
    ensures
        r@ == "Cache size on disk: "@ + size_text(blocks * 512),
{
    let bytes: i64 = (blocks * 512) as i64;
    let size = format_size(bytes);
    let mut s = String::new();
    push_str(&mut s, "Cache size on disk: ");
    push_str(&mut s, size.as_str());
    s
}

/// The rows of a copied list of cache paths: `|path|` and a line break each.
pub open spec fn cache_rows(paths: Seq<Seq<char>>) -> Seq<char>
    decreases paths.len(),
{
    if paths.len() == 0 {
        Seq::empty()
    } else {
        cache_rows(paths.drop_last()) + "|"@ + paths.last() + "|\n"@
    }
}

/// The Markdown table the cache dialog copies.
pub fn cache_markdown(paths: &Vec<String>) -> (r: String)
    ensures
        r@ == "## Cache Files\n|File|\n|---|\n"@ + cache_rows(views(paths@)),
{
    let mut s = String::new();
    push_str(&mut s, "## Cache Files\n|File|\n|---|\n");
    let mut i: usize = 0;
    while i < paths.len()
        invariant
            i <= paths@.len(),
            s@ == "## Cache Files\n|File|\n|---|\n"@ + cache_rows(views(paths@).take(i as int)),
        decreases paths@.len() - i,
    {
        assert(views(paths@).take(i + 1).drop_last() == views(paths@).take(i as int));
        push_str(&mut s, "|");
        push_str(&mut s, paths[i].as_str());
        push_str(&mut s, "|\n");
        i = i + 1;
    }
    assert(views(paths@).take(paths@.len() as int) == views(paths@));
    s
}

} // verus!
