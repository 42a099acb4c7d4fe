//! Sorting of the lists that a package shows: names (required by, optional
//! for, files) and backup files by path, in the order of `str`.
use vstd::prelude::*;

use crate::text::{text_le, sorted_texts, views, chars_of};
use crate::backup::PkgBackup;

verus! {

//------------------------------------------------------------------------------
// Laws of the text order
//------------------------------------------------------------------------------
/// The code of a character as `u32` is its code point.
proof fn lemma_char_code(c: char)
    ensures
        (c as u32) as int == c as int,
{
    assert(0 <= c as int <= 0x10FFFF);
}

/// Any two texts are ordered one way or the other.
pub proof fn lemma_text_le_total(a: Seq<char>, b: Seq<char>)
    ensures
        text_le(a, b) || text_le(b, a),
    decreases a.len(),
{
    if a.len() > 0 && b.len() > 0 {
        if a[0] == b[0] {
            lemma_text_le_total(a.drop_first(), b.drop_first());
        } else {
            lemma_char_code(a[0]);
            lemma_char_code(b[0]);
            assert((a[0] as int) != (b[0] as int));
        }
    }
}

/// The text order is transitive.
pub proof fn lemma_text_le_trans(a: Seq<char>, b: Seq<char>, c: Seq<char>)
    requires
        text_le(a, b),
        text_le(b, c),
    ensures
        text_le(a, c),
    decreases a.len(),
{
    if a.len() > 0 && b.len() > 0 && c.len() > 0 && a[0] == b[0] && b[0] == c[0] {
        lemma_text_le_trans(a.drop_first(), b.drop_first(), c.drop_first());
    }
}

/// Every text is ordered before itself.
pub proof fn lemma_text_le_refl(a: Seq<char>)
    ensures
        text_le(a, a),
    decreases a.len(),
{
    if a.len() > 0 {
        lemma_text_le_refl(a.drop_first());
    }
}

/// Texts each ordered before the other are the same.
pub proof fn lemma_text_le_antisym(a: Seq<char>, b: Seq<char>)
    requires
        text_le(a, b),
        text_le(b, a),
    ensures
        a == b,
    decreases a.len(),
{
    if a.len() == 0 {
        assert(b.len() == 0);
        assert(a =~= b);
    } else {
        assert(b.len() > 0);
        if a[0] != b[0] {
            lemma_char_code(a[0]);
            lemma_char_code(b[0]);
        }
        assert(a[0] == b[0]);
        lemma_text_le_antisym(a.drop_first(), b.drop_first());
        assert(a =~= seq![a[0]] + a.drop_first());
        assert(b =~= seq![b[0]] + b.drop_first());
    }
}

/// The order from position `i` on, once the texts agree before it.
proof fn lemma_text_le_suffix(a: Seq<char>, b: Seq<char>, i: int)
    requires
        0 <= i <= a.len(),
        i <= b.len(),
        a.subrange(0, i) == b.subrange(0, i),
    ensures
        text_le(a, b) == text_le(a.subrange(i, a.len() as int), b.subrange(i, b.len() as int)),
    decreases i,
{
    if i > 0 {
        assert(a[0] == a.subrange(0, i)[0]);
        assert(b[0] == b.subrange(0, i)[0]);
        let a1 = a.drop_first();
        let b1 = b.drop_first();
        assert(a1.subrange(0, i - 1) == a.subrange(0, i).drop_first());
        assert(b1.subrange(0, i - 1) == b.subrange(0, i).drop_first());
        lemma_text_le_suffix(a1, b1, i - 1);
        assert(a1.subrange(i - 1, a1.len() as int) == a.subrange(i, a.len() as int));
        assert(b1.subrange(i - 1, b1.len() as int) == b.subrange(i, b.len() as int));
    } else {
        assert(a.subrange(0, a.len() as int) == a);
        assert(b.subrange(0, b.len() as int) == b);
    }
}

/// Whether `a` comes before `b` or equals it, in the order of `str`.
pub fn text_le_exec(a: &str, b: &str) -> (r: bool)
    ensures
        r == text_le(a@, b@),
{
    let x = chars_of(a);
    let y = chars_of(b);
    let mut i: usize = 0;
    while i < x.len() && i < y.len() && x[i] == y[i]
        invariant
            x@ == a@,
            y@ == b@,
            i <= x@.len(),
            i <= y@.len(),
            x@.subrange(0, i as int) == y@.subrange(0, i as int),
        decreases x@.len() - i,
    {
        assert(x@.subrange(0, i + 1) == x@.subrange(0, i as int).push(x@[i as int]));
        assert(y@.subrange(0, i + 1) == y@.subrange(0, i as int).push(y@[i as int]));
        i = i + 1;
    }
    proof {
        lemma_text_le_suffix(x@, y@, i as int);
        let xs = x@.subrange(i as int, x@.len() as int);
        let ys = y@.subrange(i as int, y@.len() as int);
        if i < x@.len() && i < y@.len() {
            assert(xs[0] == x@[i as int]);
            assert(ys[0] == y@[i as int]);
        }
    }
    if i >= x.len() {
        true
    } else if i >= y.len() {
        false
    } else {
        (x[i] as u32) < (y[i] as u32)
    }
}

//------------------------------------------------------------------------------
// Sorting names
//------------------------------------------------------------------------------
/// Inserting `x` where the first element not before it stands keeps a
/// sorted list sorted.
proof fn lemma_insert_sorted(s: Seq<Seq<char>>, j: int, x: Seq<char>)
    requires
        sorted_texts(s),
        0 <= j <= s.len(),
        forall|k: int| 0 <= k < j ==> text_le(#[trigger] s[k], x),
        j < s.len() ==> text_le(x, s[j]),
    ensures
        sorted_texts(s.insert(j, x)),
{
    let t = s.insert(j, x);
    assert forall|a: int, b: int| 0 <= a < b < t.len() implies text_le(
        #[trigger] t[a],
        #[trigger] t[b],
    ) by {
        if a < j && b < j {
            assert(t[a] == s[a] && t[b] == s[b]);
        } else if a < j && b == j {
            assert(t[a] == s[a]);
        } else if a < j {
            assert(t[a] == s[a] && t[b] == s[b - 1]);
            assert(text_le(s[a], x));
            assert(text_le(x, s[j]));
            if j < b - 1 {
                assert(text_le(s[j], s[b - 1]));
                lemma_text_le_trans(x, s[j], s[b - 1]);
            }
            lemma_text_le_trans(s[a], x, s[b - 1]);
        } else if a == j {
            assert(t[b] == s[b - 1]);
            if j < b - 1 {
                assert(text_le(s[j], s[b - 1]));
                lemma_text_le_trans(x, s[j], s[b - 1]);
            }
        } else {
            assert(t[a] == s[a - 1] && t[b] == s[b - 1]);
        }
    }
}

/// The first position of sorted `out` whose text is not before `x`.
fn insert_position(out: &Vec<String>, x: &String) -> (j: usize)
    requires
        sorted_texts(views(out@)),
    ensures
        j <= out@.len(),
        forall|k: int| 0 <= k < j ==> text_le(#[trigger] views(out@)[k], x@),
        j < out@.len() ==> text_le(x@, views(out@)[j as int]),
{
    let mut j: usize = 0;
    while j < out.len() && !text_le_exec(x.as_str(), out[j].as_str())
        invariant
            j <= out@.len(),
            forall|k: int| 0 <= k < j ==> text_le(#[trigger] views(out@)[k], x@),
        decreases out@.len() - j,
    {
        proof {
            lemma_text_le_total(x@, out@[j as int]@);
        }
        j = j + 1;
    }
    j
}

/// The strings of `v` in ascending order of `str` (as `sort_unstable`).
pub fn sort_names(v: Vec<String>) -> (r: Vec<String>)
    ensures
        r@.to_multiset() == v@.to_multiset(),
        views(r@).to_multiset() == views(v@).to_multiset(),
        sorted_texts(views(r@)),
{
    broadcast use vstd::seq_lib::group_to_multiset_ensures;
    broadcast use vstd::multiset::group_multiset_axioms;
    let ghost all = v@.to_multiset();
    let ghost all_views = views(v@).to_multiset();
    let mut rest = v;
    let mut out: Vec<String> = Vec::new();
    assert(out@.to_multiset() =~= vstd::multiset::Multiset::empty());
    assert(views(out@).to_multiset() =~= vstd::multiset::Multiset::empty());
    while rest.len() > 0
        invariant
            out@.to_multiset().add(rest@.to_multiset()) == all,
            views(out@).to_multiset().add(views(rest@).to_multiset()) == all_views,
            sorted_texts(views(out@)),
        decreases rest@.len(),
    {
        let ghost before = rest@;
        let x = rest.pop().unwrap();
        proof {
            assert(before == rest@.push(x));
            vstd::seq_lib::to_multiset_build(rest@, x);
            assert(views(before) == views(rest@).push(x@));
            vstd::seq_lib::to_multiset_build(views(rest@), x@);
        }
        let j = insert_position(&out, &x);
        proof {
            lemma_insert_sorted(views(out@), j as int, x@);
            vstd::seq_lib::to_multiset_insert(out@, j as int, x);
            assert(views(out@.insert(j as int, x)) == views(out@).insert(j as int, x@));
            vstd::seq_lib::to_multiset_insert(views(out@), j as int, x@);
        }
        out.insert(j, x);
        assert(out@.to_multiset().add(rest@.to_multiset()) =~= all);
        assert(views(out@).to_multiset().add(views(rest@).to_multiset()) =~= all_views);
    }
    assert(rest@.to_multiset() =~= vstd::multiset::Multiset::empty());
    assert(views(rest@).to_multiset() =~= vstd::multiset::Multiset::empty());
    assert(out@.to_multiset() =~= all);
    assert(views(out@).to_multiset() =~= all_views);
    out
}

/// Sorting gives one order only: two lists that hold the same names, as
/// often each, and are both in ascending order, are the same list. So the
/// sorted names of a package do not depend on the order they came in.
pub proof fn law_sorted_unique(s1: Seq<Seq<char>>, s2: Seq<Seq<char>>)
    requires
        s1.to_multiset() == s2.to_multiset(),
        sorted_texts(s1),
        sorted_texts(s2),
    ensures
        s1 == s2,
    decreases s1.len(),
{
    broadcast use vstd::seq_lib::group_to_multiset_ensures;
    broadcast use vstd::multiset::group_multiset_axioms;

    assert(s1.len() == s1.to_multiset().len());
    assert(s2.len() == s2.to_multiset().len());
    if s1.len() == 0 {
        assert(s1 =~= s2);
    } else {
        let x = s1[0];
        let y = s2[0];
        assert(s1.contains(x));
        assert(s1.to_multiset().count(x) > 0);
        assert(s2.contains(x));
        let j = choose|j: int| 0 <= j < s2.len() && s2[j] == x;
        if j > 0 {
            assert(text_le(s2[0], s2[j]));
        } else {
            lemma_text_le_refl(x);
        }
        assert(text_le(y, x));
        assert(s2.to_multiset().count(y) > 0);
        assert(s1.contains(y));
        let i = choose|i: int| 0 <= i < s1.len() && s1[i] == y;
        if i > 0 {
            assert(text_le(s1[0], s1[i]));
        } else {
            lemma_text_le_refl(x);
        }
        assert(text_le(x, y));
        lemma_text_le_antisym(x, y);
        let t1 = s1.drop_first();
        let t2 = s2.drop_first();
        assert(s1.remove(0) =~= t1);
        assert(s2.remove(0) =~= t2);
        assert(t1.to_multiset() =~= s1.to_multiset().remove(x));
        assert(t2.to_multiset() =~= s2.to_multiset().remove(y));
        assert forall|a: int, b: int| 0 <= a < b < t1.len() implies text_le(
            #[trigger] t1[a],
            #[trigger] t1[b],
        ) by {
            assert(t1[a] == s1[a + 1] && t1[b] == s1[b + 1]);
        }
        assert forall|a: int, b: int| 0 <= a < b < t2.len() implies text_le(
            #[trigger] t2[a],
            #[trigger] t2[b],
        ) by {
            assert(t2[a] == s2[a + 1] && t2[b] == s2[b + 1]);
        }
        law_sorted_unique(t1, t2);
        assert(s1 =~= seq![x] + t1);
        assert(s2 =~= seq![y] + t2);
    }
}

//------------------------------------------------------------------------------
// Sorting backup files
//------------------------------------------------------------------------------
/// The paths of backup files.
pub open spec fn backup_paths(v: Seq<PkgBackup>) -> Seq<Seq<char>> {
    v.map_values(|b: PkgBackup| b.path@)
}

/// The backup files of `v` in ascending order of their paths.
pub fn sort_backups(v: Vec<PkgBackup>) -> (r: Vec<PkgBackup>)
    ensures
        r@.to_multiset() == v@.to_multiset(),
        sorted_texts(backup_paths(r@)),
{
    broadcast use vstd::seq_lib::group_to_multiset_ensures;
    broadcast use vstd::multiset::group_multiset_axioms;
    let ghost all = v@.to_multiset();
    let mut rest = v;
    let mut out: Vec<PkgBackup> = Vec::new();
    assert(out@.to_multiset() =~= vstd::multiset::Multiset::empty());
    while rest.len() > 0
        invariant
            out@.to_multiset().add(rest@.to_multiset()) == all,
            sorted_texts(backup_paths(out@)),
        decreases rest@.len(),
    {
        let ghost before = rest@;
        let x = rest.pop().unwrap();
        proof {
            assert(before == rest@.push(x));
            vstd::seq_lib::to_multiset_build(rest@, x);
        }
        let mut j: usize = 0;
        while j < out.len() && !text_le_exec(x.path.as_str(), out[j].path.as_str())
            invariant
                j <= out@.len(),
                forall|k: int| 0 <= k < j ==> text_le(#[trigger] backup_paths(out@)[k], x.path@),
            decreases out@.len() - j,
        {
            proof {
                lemma_text_le_total(x.path@, out@[j as int].path@);
            }
            j = j + 1;
        }
        proof {
            lemma_insert_sorted(backup_paths(out@), j as int, x.path@);
            vstd::seq_lib::to_multiset_insert(out@, j as int, x);
            assert(backup_paths(out@.insert(j as int, x)) == backup_paths(out@).insert(
                j as int,
                x.path@,
            ));
        }
        out.insert(j, x);
        assert(out@.to_multiset().add(rest@.to_multiset()) =~= all);
    }
    assert(rest@.to_multiset() =~= vstd::multiset::Multiset::empty());
    assert(out@.to_multiset() =~= all);
    out
}

} // verus!
