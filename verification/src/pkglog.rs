//! The pacman log lines of one package, as the details window lists them:
//! lines of the form `[dateTtime+zone] [ALPM] action name rest` whose
//! action installs, removes, upgrades or downgrades the package, rewritten
//! as `[date  time] : action name rest`, newest first.
//!
//! The search follows the leftmost-first rules of a pattern with lazy
//! parts: the first `[` from which a line matches, then the shortest date,
//! the shortest time and the shortest zone for which the rest matches. The
//! package name is read as a pattern, as the dialog puts it into one: `.`
//! takes any character and a `+` lets the character before it repeat,
//! taking as many as it can first. Lines hold no line break, and names are
//! package names that read as a pattern.
use vstd::prelude::*;

use crate::text::{chars_of, push_str, string_from_range, views};

verus! {

//------------------------------------------------------------------------------
// Grammar
//------------------------------------------------------------------------------
/// The actions that the package log lists, in the order they are tried.
pub open spec fn action_words() -> Seq<Seq<char>> {
    seq!["installed"@, "removed"@, "upgraded"@, "downgraded"@]
}

/// `lit` stands in `l` at `p`.
pub open spec fn stands_at(l: Seq<char>, p: int, lit: Seq<char>) -> bool {
    0 <= p && p + lit.len() <= l.len() && l.subrange(p, p + lit.len()) == lit
}

/// A character of a package name: a letter, a digit or one of `@._+-`.
pub open spec fn name_char(c: char) -> bool {
    ('a' <= c && c <= 'z') || ('A' <= c && c <= 'Z') || ('0' <= c && c <= '9') || c == '@' || c
        == '.' || c == '_' || c == '+' || c == '-'
}

/// A package name that reads as a pattern: made of name characters, and
/// no `+` at the start or right after another `+`.
pub open spec fn pattern_name(n: Seq<char>) -> bool {
    &&& forall|i: int| 0 <= i < n.len() ==> name_char(#[trigger] n[i])
    &&& n.len() > 0 ==> n[0] != '+'
    &&& forall|i: int| 0 < i < n.len() && #[trigger] n[i] == '+' ==> n[i - 1] != '+'
}

/// The pattern a name reads as: each character other than `+` stands for
/// itself (`.` for any character), and a `+` after it lets it repeat.
pub open spec fn atoms(n: Seq<char>) -> Seq<(char, bool)>
    decreases n.len(),
{
    if n.len() == 0 {
        Seq::empty()
    } else if n.len() >= 2 && n[1] == '+' {
        seq![(n[0], true)] + atoms(n.subrange(2, n.len() as int))
    } else {
        seq![(n[0], false)] + atoms(n.subrange(1, n.len() as int))
    }
}

/// Whether a pattern character takes `x`.
pub open spec fn atom_ok(a: char, x: char) -> bool {
    a == '.' || a == x
}

/// The end of the run of characters that pattern character `a` takes from
/// `pos` on.
pub open spec fn atom_run_end(l: Seq<char>, a: char, pos: int) -> int
    decreases l.len() - pos,
{
    if pos < 0 || pos >= l.len() || !atom_ok(a, l[pos]) {
        pos
    } else {
        atom_run_end(l, a, pos + 1)
    }
}

/// Where the name ends when the pattern from part `i` on is matched from
/// `pos`, each repeated part taking as many characters as it can and
/// giving them back one by one, and the name must be followed by a space
/// and at least one more character.
pub open spec fn name_end(l: Seq<char>, n: Seq<(char, bool)>, i: int, pos: int) -> Option<int>
    decreases n.len() - i, l.len() + 1,
{
    if i < 0 || i > n.len() || pos < 0 || pos > l.len() {
        None
    } else if i == n.len() {
        if pos + 1 < l.len() && l[pos] == ' ' {
            Some(pos)
        } else {
            None
        }
    } else if !n[i].1 {
        if pos < l.len() && atom_ok(n[i].0, l[pos]) {
            name_end(l, n, i + 1, pos + 1)
        } else {
            None
        }
    } else {
        let e = atom_run_end(l, n[i].0, pos);
        if pos < e && e <= l.len() {
            try_count(l, n, i, pos, e)
        } else {
            None
        }
    }
}

/// Part `i` repeated up to `q`, then fewer times down to once, until the
/// rest of the pattern matches.
pub open spec fn try_count(l: Seq<char>, n: Seq<(char, bool)>, i: int, pos: int, q: int) -> Option<
    int,
>
    decreases n.len() - i, q - pos,
{
    if i < 0 || i >= n.len() || pos < 0 || q <= pos || q > l.len() {
        None
    } else {
        match name_end(l, n, i + 1, q) {
            Some(x) => Some(x),
            None => if q > pos + 1 {
                try_count(l, n, i, pos, q - 1)
            } else {
                None
            },
        }
    }
}

/// From the word tried `wi` on: the action at `p`, a space, then the
/// name pattern `n` and what must follow it; the action and where the
/// matched name ends.
pub open spec fn word_tail(l: Seq<char>, n: Seq<(char, bool)>, p: int, wi: int) -> Option<
    (Seq<char>, int),
>
    decreases 4 - wi,
{
    if wi < 0 || wi >= 4 {
        None
    } else {
        let lit = action_words()[wi] + " "@;
        if stands_at(l, p, lit) && name_end(l, n, 0, p + lit.len()) is Some {
            Some((action_words()[wi], name_end(l, n, 0, p + lit.len()).unwrap()))
        } else {
            word_tail(l, n, p, wi + 1)
        }
    }
}

/// What follows the zone that ends at `c`: `] [ALPM] `, an action, the
/// name and the rest.
pub open spec fn tail_at(l: Seq<char>, n: Seq<(char, bool)>, c: int) -> Option<(Seq<char>, int)> {
    if stands_at(l, c, "] [ALPM] "@) {
        word_tail(l, n, c + 9, 0)
    } else {
        None
    }
}

/// The first end of the zone from `c` on for which the tail matches.
pub open spec fn c_from(l: Seq<char>, n: Seq<(char, bool)>, c: int) -> Option<int>
    decreases l.len() - c,
{
    if c < 0 || c >= l.len() {
        None
    } else if tail_at(l, n, c) is Some {
        Some(c)
    } else {
        c_from(l, n, c + 1)
    }
}

/// The first `+` (ending the time) from `b` on after which a zone and the
/// tail match.
pub open spec fn b_from(l: Seq<char>, n: Seq<(char, bool)>, b: int) -> Option<int>
    decreases l.len() - b,
{
    if b < 0 || b >= l.len() {
        None
    } else if l[b] == '+' && c_from(l, n, b + 2) is Some {
        Some(b)
    } else {
        b_from(l, n, b + 1)
    }
}

/// The first `T` (ending the date) from `a` on after which the rest
/// matches.
pub open spec fn a_from(l: Seq<char>, n: Seq<(char, bool)>, a: int) -> Option<int>
    decreases l.len() - a,
{
    if a < 0 || a >= l.len() {
        None
    } else if l[a] == 'T' && b_from(l, n, a + 2) is Some {
        Some(a)
    } else {
        a_from(l, n, a + 1)
    }
}

/// The first `[` from `s` on from which the line matches.
pub open spec fn s_from(l: Seq<char>, n: Seq<(char, bool)>, s: int) -> Option<int>
    decreases l.len() - s,
{
    if s < 0 || s >= l.len() {
        None
    } else if l[s] == '[' && a_from(l, n, s + 2) is Some {
        Some(s)
    } else {
        s_from(l, n, s + 1)
    }
}

/// The line as the package log lists it, `None` when it does not match:
/// what stands before the match, then `[date  time] : action name rest`,
/// the name as the line has it.
pub open spec fn package_log_spec(l: Seq<char>, name: Seq<char>) -> Option<Seq<char>> {
    let n = atoms(name);
    match s_from(l, n, 0) {
        None => None,
        Some(s) => {
            let a = a_from(l, n, s + 2).unwrap();
            let b = b_from(l, n, a + 2).unwrap();
            let c = c_from(l, n, b + 2).unwrap();
            let (w, q) = tail_at(l, n, c).unwrap();
            let start = c + 9 + w.len() + 1;
            Some(
                l.subrange(0, s) + "["@ + l.subrange(s + 1, a) + "  "@ + l.subrange(a + 1, b)
                    + "] : "@ + w + " "@ + l.subrange(start, q) + " "@ + l.subrange(
                    q + 1,
                    l.len() as int,
                ),
            )
        },
    }
}

//------------------------------------------------------------------------------
// Matching
//------------------------------------------------------------------------------
fn stands_at_exec(l: &Vec<char>, p: usize, lit: &Vec<char>) -> (r: bool)
    ensures
        r == stands_at(l@, p as int, lit@),
{
    if p > l.len() || lit.len() > l.len() - p {
        return false;
    }
    let mut k: usize = 0;
    while k < lit.len()
        invariant
            p + lit@.len() <= l@.len(),
            l@.len() == l.len(),
            k <= lit@.len(),
            forall|j: int| 0 <= j < k ==> l@[p + j] == lit@[j],
        decreases lit@.len() - k,
    {
        if l[p + k] != lit[k] {
            assert(l@.subrange(p as int, p + lit@.len())[k as int] != lit@[k as int]);
            return false;
        }
        k = k + 1;
    }
    assert(l@.subrange(p as int, p + lit@.len()) == lit@);
    true
}

fn word_space(w: &str) -> (r: Vec<char>)
    ensures
        r@ == w@ + " "@,
{
    let mut r = chars_of(w);
    r.push(' ');
    proof {
        reveal_strlit(" ");
    }
    assert(r@ == w@ + " "@);
    r
}

fn action_word(wi: usize) -> (r: &'static str)
    requires
        wi < 4,
    ensures
        r@ == action_words()[wi as int],
{
    if wi == 0 {
        "installed"
    } else if wi == 1 {
        "removed"
    } else if wi == 2 {
        "upgraded"
    } else {
        "downgraded"
    }
}

fn tail_at_exec(l: &Vec<char>, n: &Vec<(char, bool)>, c: usize) -> (r: Option<
    (&'static str, usize, usize),
>)
    ensures
        r matches Some((rw, rs, rq)) ==> tail_at(l@, n@, c as int) == Some((rw@, rq as int)) && rs
            == c + 9 + rw@.len() + 1,
        r is None ==> tail_at(l@, n@, c as int) is None,
{
    let marker = chars_of("] [ALPM] ");
    if !stands_at_exec(l, c, &marker) {
        return None;
    }
    proof {
        reveal_strlit("] [ALPM] ");
        reveal_strlit(" ");
    }
    assert(l@.len() == l.len());
    let p = c + 9;
    let mut wi: usize = 0;
    while wi < 4
        invariant
            p == c + 9,
            p <= l@.len(),
            l@.len() == l.len(),
            wi <= 4,
            tail_at(l@, n@, c as int) == word_tail(l@, n@, p as int, wi as int),
        decreases 4 - wi,
    {
        let w = action_word(wi);
        let lit = word_space(w);
        proof {
            reveal_strlit(" ");
        }
        if stands_at_exec(l, p, &lit) {
            let start = p + lit.len();
            match name_end_exec(l, n, 0, start) {
                Some(q) => {
                    return Some((w, start, q));
                },
                None => {},
            }
        }
        wi = wi + 1;
    }
    None
}

fn run_end_exec(l: &Vec<char>, a: char, pos: usize) -> (r: usize)
    requires
        pos <= l@.len(),
    ensures
        r as int == atom_run_end(l@, a, pos as int),
        pos <= r <= l@.len(),
{
    let mut k = pos;
    while k < l.len() && (a == '.' || l[k] == a)
        invariant
            pos <= k <= l@.len(),
            atom_run_end(l@, a, pos as int) == atom_run_end(l@, a, k as int),
        decreases l@.len() - k,
    {
        k = k + 1;
    }
    k
}

fn name_end_exec(l: &Vec<char>, n: &Vec<(char, bool)>, i: usize, pos: usize) -> (r: Option<usize>)
    requires
        i <= n@.len(),
        pos <= l@.len(),
    ensures
        r matches Some(x) ==> name_end(l@, n@, i as int, pos as int) == Some(x as int),
        r is None ==> name_end(l@, n@, i as int, pos as int) is None,
    decreases n@.len() - i,
{
    if i == n.len() {
        if pos < l.len() && l.len() - pos > 1 && l[pos] == ' ' {
            return Some(pos);
        }
        return None;
    }
    let (a, plus) = n[i];
    if !plus {
        if pos < l.len() && (a == '.' || l[pos] == a) {
            return name_end_exec(l, n, i + 1, pos + 1);
        }
        return None;
    }
    let e = run_end_exec(l, a, pos);
    if e == pos {
        return None;
    }
    let mut q = e;
    loop
        invariant
            i < n@.len(),
            n@.len() == n.len(),
            n@[i as int].1,
            pos < q <= e <= l@.len(),
            e as int == atom_run_end(l@, n@[i as int].0, pos as int),
            name_end(l@, n@, i as int, pos as int) == try_count(l@, n@, i as int, pos as int, q as int),
        decreases q,
    {
        match name_end_exec(l, n, i + 1, q) {
            Some(x) => {
                return Some(x);
            },
            None => {},
        }
        if q == pos + 1 {
            return None;
        }
        q = q - 1;
    }
}

/// The pattern of a name.
fn atoms_exec(n: &Vec<char>) -> (r: Vec<(char, bool)>)
    ensures
        r@ == atoms(n@),
{
    let mut out: Vec<(char, bool)> = Vec::new();
    let mut j: usize = 0;
    assert(n@.subrange(0, n@.len() as int) == n@);
    while j < n.len()
        invariant
            j <= n@.len(),
            out@ + atoms(n@.subrange(j as int, n@.len() as int)) == atoms(n@),
        decreases n@.len() - j,
    {
        let ghost m = n@.subrange(j as int, n@.len() as int);
        let ghost prev = out@;
        if j + 1 < n.len() && n[j + 1] == '+' {
            assert(m[0] == n@[j as int] && m[1] == '+');
            assert(m.subrange(2, m.len() as int) == n@.subrange(j + 2, n@.len() as int));
            out.push((n[j], true));
            assert(out@ == prev + seq![(n@[j as int], true)]);
            assert(prev + atoms(m) == out@ + atoms(n@.subrange(j + 2, n@.len() as int)));
            j = j + 2;
        } else {
            assert(m[0] == n@[j as int]);
            assert(m.len() < 2 || m[1] != '+');
            assert(m.subrange(1, m.len() as int) == n@.subrange(j + 1, n@.len() as int));
            out.push((n[j], false));
            assert(out@ == prev + seq![(n@[j as int], false)]);
            assert(prev + atoms(m) == out@ + atoms(n@.subrange(j + 1, n@.len() as int)));
            j = j + 1;
        }
    }
    assert(atoms(n@.subrange(j as int, n@.len() as int)) == Seq::<(char, bool)>::empty());
    assert(out@ + Seq::<(char, bool)>::empty() == out@);
    out
}

fn c_from_exec(l: &Vec<char>, n: &Vec<(char, bool)>, c0: usize) -> (r: Option<usize>)
    ensures
        r matches Some(x) ==> c_from(l@, n@, c0 as int) == Some(x as int),
        r is None ==> c_from(l@, n@, c0 as int) is None,
{
    let mut c = c0;
    while c < l.len()
        invariant
            c0 <= c,
            c_from(l@, n@, c0 as int) == c_from(l@, n@, c as int),
        decreases l@.len() - c,
    {
        if tail_at_exec(l, n, c).is_some() {
            return Some(c);
        }
        c = c + 1;
    }
    None
}

fn b_from_exec(l: &Vec<char>, n: &Vec<(char, bool)>, b0: usize) -> (r: Option<usize>)
    ensures
        r matches Some(x) ==> b_from(l@, n@, b0 as int) == Some(x as int),
        r is None ==> b_from(l@, n@, b0 as int) is None,
{
    let mut b = b0;
    while b < l.len()
        invariant
            b0 <= b,
            l@.len() == l.len(),
            b_from(l@, n@, b0 as int) == b_from(l@, n@, b as int),
        decreases l@.len() - b,
    {
        if l[b] == '+' && b < l.len() - 1 && c_from_exec(l, n, b + 2).is_some() {
            return Some(b);
        }
        b = b + 1;
    }
    None
}

fn a_from_exec(l: &Vec<char>, n: &Vec<(char, bool)>, a0: usize) -> (r: Option<usize>)
    ensures
        r matches Some(x) ==> a_from(l@, n@, a0 as int) == Some(x as int),
        r is None ==> a_from(l@, n@, a0 as int) is None,
{
    let mut a = a0;
    while a < l.len()
        invariant
            a0 <= a,
            l@.len() == l.len(),
            a_from(l@, n@, a0 as int) == a_from(l@, n@, a as int),
        decreases l@.len() - a,
    {
        if l[a] == 'T' && a < l.len() - 1 && b_from_exec(l, n, a + 2).is_some() {
            return Some(a);
        }
        a = a + 1;
    }
    None
}

fn s_from_exec(l: &Vec<char>, n: &Vec<(char, bool)>) -> (r: Option<usize>)
    ensures
        r matches Some(x) ==> s_from(l@, n@, 0) == Some(x as int),
        r is None ==> s_from(l@, n@, 0) is None,
{
    let mut s: usize = 0;
    while s < l.len()
        invariant
            l@.len() == l.len(),
            s_from(l@, n@, 0) == s_from(l@, n@, s as int),
        decreases l@.len() - s,
    {
        if l[s] == '[' && s < l.len() - 1 && a_from_exec(l, n, s + 2).is_some() {
            return Some(s);
        }
        s = s + 1;
    }
    None
}

proof fn lemma_found_bounds(l: Seq<char>, n: Seq<(char, bool)>, s: int)
    requires
        s_from(l, n, 0) == Some(s),
    ensures
        0 <= s,
        s + 2 <= a_from(l, n, s + 2).unwrap(),
        a_from(l, n, s + 2).unwrap() + 2 <= b_from(l, n, a_from(l, n, s + 2).unwrap() + 2).unwrap(),
        b_from(l, n, a_from(l, n, s + 2).unwrap() + 2).unwrap() + 2 <= c_from(
            l,
            n,
            b_from(l, n, a_from(l, n, s + 2).unwrap() + 2).unwrap() + 2,
        ).unwrap(),
        a_from(l, n, s + 2) is Some,
        b_from(l, n, a_from(l, n, s + 2).unwrap() + 2) is Some,
        c_from(l, n, b_from(l, n, a_from(l, n, s + 2).unwrap() + 2).unwrap() + 2) is Some,
        tail_at(
            l,
            n,
            c_from(l, n, b_from(l, n, a_from(l, n, s + 2).unwrap() + 2).unwrap() + 2).unwrap(),
        ) is Some,
{
    lemma_s_from(l, n, 0);
    let a = a_from(l, n, s + 2).unwrap();
    lemma_a_from(l, n, s + 2);
    let b = b_from(l, n, a + 2).unwrap();
    lemma_b_from(l, n, a + 2);
    lemma_c_from(l, n, b + 2);
}

proof fn lemma_c_from(l: Seq<char>, n: Seq<(char, bool)>, c: int)
    ensures
        c_from(l, n, c) matches Some(x) ==> c <= x < l.len() && tail_at(l, n, x) is Some,
    decreases l.len() - c,
{
    if 0 <= c < l.len() && tail_at(l, n, c) is None {
        lemma_c_from(l, n, c + 1);
    }
}

proof fn lemma_b_from(l: Seq<char>, n: Seq<(char, bool)>, b: int)
    ensures
        b_from(l, n, b) matches Some(x) ==> b <= x < l.len() && c_from(l, n, x + 2) is Some,
    decreases l.len() - b,
{
    if 0 <= b < l.len() && !(l[b] == '+' && c_from(l, n, b + 2) is Some) {
        lemma_b_from(l, n, b + 1);
    }
}

proof fn lemma_a_from(l: Seq<char>, n: Seq<(char, bool)>, a: int)
    ensures
        a_from(l, n, a) matches Some(x) ==> a <= x < l.len() && b_from(l, n, x + 2) is Some,
    decreases l.len() - a,
{
    if 0 <= a < l.len() && !(l[a] == 'T' && b_from(l, n, a + 2) is Some) {
        lemma_a_from(l, n, a + 1);
    }
}

proof fn lemma_s_from(l: Seq<char>, n: Seq<(char, bool)>, s: int)
    ensures
        s_from(l, n, s) matches Some(x) ==> s <= x < l.len() && a_from(l, n, x + 2) is Some,
    decreases l.len() - s,
{
    if 0 <= s < l.len() && !(l[s] == '[' && a_from(l, n, s + 2) is Some) {
        lemma_s_from(l, n, s + 1);
    }
}

proof fn lemma_name_end(l: Seq<char>, n: Seq<(char, bool)>, i: int, pos: int)
    ensures
        name_end(l, n, i, pos) matches Some(x) ==> pos <= x && x + 1 < l.len() && l[x] == ' ',
    decreases n.len() - i, l.len() + 1,
{
    if 0 <= i < n.len() && 0 <= pos <= l.len() {
        if !n[i].1 {
            if pos < l.len() && atom_ok(n[i].0, l[pos]) {
                lemma_name_end(l, n, i + 1, pos + 1);
            }
        } else {
            let e = atom_run_end(l, n[i].0, pos);
            if pos < e && e <= l.len() {
                lemma_try_count(l, n, i, pos, e);
            }
        }
    }
}

proof fn lemma_try_count(l: Seq<char>, n: Seq<(char, bool)>, i: int, pos: int, q: int)
    ensures
        try_count(l, n, i, pos, q) matches Some(x) ==> pos <= x && x + 1 < l.len() && l[x] == ' ',
    decreases n.len() - i, q - pos,
{
    if 0 <= i < n.len() && 0 <= pos < q <= l.len() {
        lemma_name_end(l, n, i + 1, q);
        if name_end(l, n, i + 1, q) is None && q > pos + 1 {
            lemma_try_count(l, n, i, pos, q - 1);
        }
    }
}

proof fn lemma_word_tail(l: Seq<char>, n: Seq<(char, bool)>, p: int, wi: int)
    ensures
        word_tail(l, n, p, wi) matches Some((w, q)) ==> p + w.len() + 1 <= q && q + 1 < l.len(),
    decreases 4 - wi,
{
    reveal_strlit(" ");
    if 0 <= wi < 4 {
        let lit = action_words()[wi] + " "@;
        if stands_at(l, p, lit) && name_end(l, n, 0, p + lit.len()) is Some {
            lemma_name_end(l, n, 0, p + lit.len());
        } else {
            lemma_word_tail(l, n, p, wi + 1);
        }
    }
}

/// A line holds no line break.
pub open spec fn single_line(l: Seq<char>) -> bool {
    forall|i: int| 0 <= i < l.len() ==> l[i] != '\n'
}

/// A line of the package log, `None` when it is not about the package.
pub fn package_log_line(line: &str, name: &str) -> (r: Option<String>)
    requires
        single_line(line@),
        pattern_name(name@),
    ensures
        match package_log_spec(line@, name@) {
            Some(t) => r matches Some(x) && x@ == t,
            None => r is None,
        },
{
    let l = chars_of(line);
    let nc = chars_of(name);
    let n = atoms_exec(&nc);
    match s_from_exec(&l, &n) {
        None => None,
        Some(s) => {
            proof {
                lemma_found_bounds(l@, n@, s as int);
                lemma_a_from(l@, n@, s + 2);
                lemma_b_from(l@, n@, a_from(l@, n@, s + 2).unwrap() + 2);
                lemma_c_from(
                    l@,
                    n@,
                    b_from(l@, n@, a_from(l@, n@, s + 2).unwrap() + 2).unwrap() + 2,
                );
            }
            assert(l@.len() == l.len());
            let a = a_from_exec(&l, &n, s + 2).unwrap();
            let b = b_from_exec(&l, &n, a + 2).unwrap();
            let c = c_from_exec(&l, &n, b + 2).unwrap();
            proof {
                reveal_strlit("] [ALPM] ");
                lemma_word_tail(l@, n@, c + 9, 0);
            }
            let (w, start, q) = tail_at_exec(&l, &n, c).unwrap();
            let mut out = string_from_range(&l, 0, s);
            push_str(&mut out, "[");
            let g1 = string_from_range(&l, s + 1, a);
            push_str(&mut out, g1.as_str());
            push_str(&mut out, "  ");
            let g2 = string_from_range(&l, a + 1, b);
            push_str(&mut out, g2.as_str());
            push_str(&mut out, "] : ");
            push_str(&mut out, w);
            push_str(&mut out, " ");
            let matched = string_from_range(&l, start, q);
            push_str(&mut out, matched.as_str());
            push_str(&mut out, " ");
            let rest = string_from_range(&l, q + 1, l.len());
            push_str(&mut out, rest.as_str());
            Some(out)
        },
    }
}

//------------------------------------------------------------------------------
// Lines
//------------------------------------------------------------------------------
/// The package log of `lines`, newest (last) first.
pub open spec fn package_log_lines_spec(lines: Seq<Seq<char>>, n: Seq<char>) -> Seq<Seq<char>>
    decreases lines.len(),
{
    if lines.len() == 0 {
        Seq::empty()
    } else {
        (match package_log_spec(lines.last(), n) {
            Some(t) => seq![t],
            None => Seq::empty(),
        }) + package_log_lines_spec(lines.drop_last(), n)
    }
}

/// The package log lists newer lines first: the lines of a later part of
/// the log come before those of an earlier part, and a single line is
/// listed when it is about the package and left out when not.
pub proof fn law_package_log_newest_first(a: Seq<Seq<char>>, b: Seq<Seq<char>>, x: Seq<char>, n: Seq<char>)
    ensures
        package_log_lines_spec(a + b, n) == package_log_lines_spec(b, n) + package_log_lines_spec(a, n),
        package_log_lines_spec(seq![x], n) == match package_log_spec(x, n) {
            Some(t) => seq![t],
            None => Seq::empty(),
        },
    decreases b.len(),
{
    assert(seq![x].drop_last() =~= Seq::<Seq<char>>::empty());
    assert(seq![x].last() == x);
    let hx: Seq<Seq<char>> = match package_log_spec(x, n) {
        Some(t) => seq![t],
        None => Seq::empty(),
    };
    assert(package_log_lines_spec(Seq::<Seq<char>>::empty(), n) =~= Seq::empty());
    assert(hx + Seq::<Seq<char>>::empty() =~= hx);
    if b.len() == 0 {
        assert(a + b =~= a);
        assert(package_log_lines_spec(b, n) + package_log_lines_spec(a, n) =~= package_log_lines_spec(a, n));
    } else {
        law_package_log_newest_first(a, b.drop_last(), x, n);
        assert((a + b).drop_last() =~= a + b.drop_last());
        assert((a + b).last() == b.last());
        let h: Seq<Seq<char>> = match package_log_spec(b.last(), n) {
            Some(t) => seq![t],
            None => Seq::empty(),
        };
        assert(h + (package_log_lines_spec(b.drop_last(), n) + package_log_lines_spec(a, n)) =~= (h
            + package_log_lines_spec(b.drop_last(), n)) + package_log_lines_spec(a, n));
    }
}

/// The package log of the lines of the pacman log, newest first.
pub fn package_log_lines(lines: &Vec<String>, name: &str) -> (r: Vec<String>)
    requires
        forall|i: int| 0 <= i < lines@.len() ==> single_line(#[trigger] lines@[i]@),
        pattern_name(name@),
    ensures
        views(r@) == package_log_lines_spec(views(lines@), name@),
{
    let mut out: Vec<String> = Vec::new();
    let mut i: usize = lines.len();
    assert(views(lines@).take(lines@.len() as int) == views(lines@));
    assert(views(out@) == Seq::<Seq<char>>::empty());
    while i > 0
        invariant
            i <= lines@.len(),
            forall|j: int| 0 <= j < lines@.len() ==> single_line(#[trigger] lines@[j]@),
            pattern_name(name@),
            views(out@) + package_log_lines_spec(views(lines@).take(i as int), name@)
                == package_log_lines_spec(views(lines@), name@),
        decreases i,
    {
        let ghost prev = views(out@);
        let ghost rest = views(lines@).take(i as int);
        assert(rest.drop_last() == views(lines@).take(i - 1));
        assert(rest.last() == lines@[i - 1]@);
        match package_log_line(lines[i - 1].as_str(), name) {
            Some(t) => {
                out.push(t);
                assert(views(out@) == prev.push(t@));
                assert(prev.push(t@) + package_log_lines_spec(views(lines@).take(i - 1), name@)
                    == prev + package_log_lines_spec(rest, name@));
            },
            None => {
                assert(package_log_lines_spec(rest, name@) == package_log_lines_spec(
                    views(lines@).take(i - 1),
                    name@,
                ));
            },
        }
        i = i - 1;
    }
    assert(views(lines@).take(lines@.len() as int) == views(lines@));
    assert(package_log_lines_spec(views(lines@).take(0), name@) == Seq::<Seq<char>>::empty());
    assert(views(out@) + Seq::<Seq<char>>::empty() == views(out@));
    out
}

//------------------------------------------------------------------------------
// What the package log lists
//------------------------------------------------------------------------------
/// A name without `+` reads as itself, character by character.
proof fn lemma_atoms_plain(n: Seq<char>)
    requires
        forall|i: int| 0 <= i < n.len() ==> n[i] != '+',
    ensures
        atoms(n).len() == n.len(),
        forall|i: int| 0 <= i < n.len() ==> #[trigger] atoms(n)[i] == (n[i], false),
    decreases n.len(),
{
    if n.len() > 0 {
        let m = n.subrange(1, n.len() as int);
        lemma_atoms_plain(m);
        assert(atoms(n) == seq![(n[0], false)] + atoms(m));
        assert forall|i: int| 0 <= i < n.len() implies #[trigger] atoms(n)[i] == (n[i], false) by {
            if i > 0 {
                assert(atoms(n)[i] == atoms(m)[i - 1]);
            }
        }
    }
}

/// A pattern of single characters standing in the line matches them one by
/// one.
proof fn lemma_name_end_plain(l: Seq<char>, ns: Seq<(char, bool)>, i: int, pos: int)
    requires
        0 <= i <= ns.len(),
        0 <= pos,
        pos + ns.len() - i <= l.len(),
        forall|j: int| i <= j < ns.len() ==> !(#[trigger] ns[j]).1 && ns[j].0 == l[pos + j - i],
    ensures
        name_end(l, ns, i, pos) == name_end(l, ns, ns.len() as int, pos + ns.len() - i),
    decreases ns.len() - i,
{
    if i < ns.len() {
        assert(!ns[i].1 && ns[i].0 == l[pos]);
        lemma_name_end_plain(l, ns, i + 1, pos + 1);
    }
}

proof fn lemma_a_from_at(l: Seq<char>, n: Seq<(char, bool)>, lo: int, a: int)
    requires
        0 <= lo <= a < l.len(),
        l[a] == 'T',
        b_from(l, n, a + 2) is Some,
        forall|j: int| lo <= j < a ==> l[j] != 'T',
    ensures
        a_from(l, n, lo) == Some(a),
    decreases a - lo,
{
    if lo < a {
        lemma_a_from_at(l, n, lo + 1, a);
    }
}

proof fn lemma_b_from_at(l: Seq<char>, n: Seq<(char, bool)>, lo: int, b: int)
    requires
        0 <= lo <= b < l.len(),
        l[b] == '+',
        c_from(l, n, b + 2) is Some,
        forall|j: int| lo <= j < b ==> l[j] != '+',
    ensures
        b_from(l, n, lo) == Some(b),
    decreases b - lo,
{
    if lo < b {
        lemma_b_from_at(l, n, lo + 1, b);
    }
}

proof fn lemma_c_from_at(l: Seq<char>, n: Seq<(char, bool)>, lo: int, c: int)
    requires
        0 <= lo <= c < l.len(),
        tail_at(l, n, c) is Some,
        forall|j: int| lo <= j < c ==> l[j] != ']',
    ensures
        c_from(l, n, lo) == Some(c),
    decreases c - lo,
{
    reveal_strlit("] [ALPM] ");
    if lo < c {
        assert(!stands_at(l, lo, "] [ALPM] "@)) by {
            if stands_at(l, lo, "] [ALPM] "@) {
                assert(l.subrange(lo, lo + 9)[0] == l[lo]);
            }
        }
        lemma_c_from_at(l, n, lo + 1, c);
    }
}

proof fn lemma_word_tail_at(l: Seq<char>, ns: Seq<(char, bool)>, p: int, wi: int, k: int, q: int)
    requires
        0 <= wi <= k < 4,
        stands_at(l, p, action_words()[k] + " "@),
        name_end(l, ns, 0, p + action_words()[k].len() + 1) == Some(q),
        forall|j: int| wi <= j < k ==> !stands_at(l, p, #[trigger] action_words()[j] + " "@),
    ensures
        word_tail(l, ns, p, wi) == Some((action_words()[k], q)),
    decreases k - wi,
{
    reveal_strlit(" ");
    if wi < k {
        assert(!stands_at(l, p, action_words()[wi] + " "@));
        lemma_word_tail_at(l, ns, p, wi + 1, k, q);
    }
}

/// How a log line is laid out: `[`, the date, `T`, the time, `+`, the
/// zone, `] [ALPM] `, the action, a space, the name, a space, the rest.
spec fn line_parts(
    l: Seq<char>,
    d: Seq<char>,
    t: Seq<char>,
    z: Seq<char>,
    w: Seq<char>,
    name: Seq<char>,
    rest: Seq<char>,
) -> bool {
    let a: int = d.len() as int + 1;
    let b: int = a + 1 + t.len();
    let c: int = b + 1 + z.len();
    let p: int = c + 9;
    let st: int = p + w.len() + 1;
    let q: int = st + name.len();
    &&& l.len() == q + 1 + rest.len()
    &&& l[0] == '['
    &&& l[a] == 'T'
    &&& l[b] == '+'
    &&& l[st - 1] == ' '
    &&& l[q] == ' '
    &&& l.subrange(1, a) == d
    &&& l.subrange(a + 1, b) == t
    &&& l.subrange(b + 1, c) == z
    &&& l.subrange(c, p) == "] [ALPM] "@
    &&& l.subrange(p, st - 1) == w
    &&& l.subrange(st, q) == name
    &&& l.subrange(q + 1, l.len() as int) == rest
}

proof fn lemma_line_parts(
    d: Seq<char>,
    t: Seq<char>,
    z: Seq<char>,
    w: Seq<char>,
    name: Seq<char>,
    rest: Seq<char>,
)
    ensures
        line_parts(
            "["@ + d + "T"@ + t + "+"@ + z + "] [ALPM] "@ + w + " "@ + name + " "@ + rest,
            d,
            t,
            z,
            w,
            name,
            rest,
        ),
{
    reveal_strlit("[");
    reveal_strlit("T");
    reveal_strlit("+");
    reveal_strlit("] [ALPM] ");
    reveal_strlit(" ");
    let m = "] [ALPM] "@;
    let l = "["@ + d + "T"@ + t + "+"@ + z + m + w + " "@ + name + " "@ + rest;
    let a: int = d.len() as int + 1;
    let b: int = a + 1 + t.len();
    let c: int = b + 1 + z.len();
    let p: int = c + 9;
    let st: int = p + w.len() + 1;
    let q: int = st + name.len();
    assert(l.subrange(1, a) =~= d);
    assert(l.subrange(a + 1, b) =~= t);
    assert(l.subrange(b + 1, c) =~= z);
    assert(l.subrange(c, p) =~= m);
    assert(l.subrange(p, st - 1) =~= w);
    assert(l.subrange(st, q) =~= name);
    assert(l.subrange(q + 1, l.len() as int) =~= rest);
}

/// The parts of a laid-out line are what the package log reads.
proof fn lemma_line_read(
    l: Seq<char>,
    d: Seq<char>,
    t: Seq<char>,
    z: Seq<char>,
    w: Seq<char>,
    name: Seq<char>,
    rest: Seq<char>,
    k: int,
)
    requires
        line_parts(l, d, t, z, w, name, rest),
        d.len() > 0 && t.len() > 0 && z.len() > 0 && rest.len() > 0,
        forall|i: int| 0 <= i < d.len() ==> d[i] != 'T',
        forall|i: int| 0 <= i < t.len() ==> t[i] != '+',
        forall|i: int| 0 <= i < z.len() ==> z[i] != ']',
        forall|i: int| 0 <= i < name.len() ==> name[i] != '+',
        0 <= k < 4,
        action_words()[k] == w,
        forall|j: int|
            0 <= j < k ==> (#[trigger] action_words()[j]).len() > 0 && action_words()[j][0] != w[0],
        w.len() > 0,
    ensures
        ({
            let ns = atoms(name);
            let a: int = d.len() as int + 1;
            let b: int = a + 1 + t.len();
            let c: int = b + 1 + z.len();
            &&& s_from(l, ns, 0) == Some(0int)
            &&& a_from(l, ns, 2) == Some(a)
            &&& b_from(l, ns, a + 2) == Some(b)
            &&& c_from(l, ns, b + 2) == Some(c)
            &&& tail_at(l, ns, c) == Some((w, c + 9 + w.len() + 1 + name.len()))
        }),
{
    reveal_strlit(" ");
    reveal_strlit("] [ALPM] ");
    let ns = atoms(name);
    let a: int = d.len() as int + 1;
    let b: int = a + 1 + t.len();
    let c: int = b + 1 + z.len();
    let p: int = c + 9;
    let st: int = p + w.len() + 1;
    let q: int = st + name.len();
    lemma_atoms_plain(name);
    assert forall|j: int| 0 <= j < ns.len() implies !(#[trigger] ns[j]).1 && ns[j].0 == l[st + j - 0] by {
        assert(ns[j] == (name[j], false));
        assert(l.subrange(st, q)[j] == l[st + j]);
    }
    lemma_name_end_plain(l, ns, 0, st);
    assert(name_end(l, ns, 0, st) == Some(q));
    assert(l.subrange(p, st) =~= w + " "@);
    assert(stands_at(l, p, action_words()[k] + " "@));
    assert(l[p] == w[0]) by {
        assert(l.subrange(p, st - 1)[0] == l[p]);
    }
    assert forall|j: int| 0 <= j < k implies !stands_at(l, p, #[trigger] action_words()[j] + " "@) by {
        let lit = action_words()[j] + " "@;
        if stands_at(l, p, lit) {
            assert(l.subrange(p, p + lit.len())[0] == l[p]);
            assert(lit[0] == action_words()[j][0]);
        }
    }
    lemma_word_tail_at(l, ns, p, 0, k, q);
    assert(tail_at(l, ns, c) == Some((w, q)));
    assert forall|j: int| b + 2 <= j < c implies l[j] != ']' by {
        assert(l.subrange(b + 1, c)[j - b - 1] == l[j]);
    }
    lemma_c_from_at(l, ns, b + 2, c);
    assert forall|j: int| a + 2 <= j < b implies l[j] != '+' by {
        assert(l.subrange(a + 1, b)[j - a - 1] == l[j]);
    }
    lemma_b_from_at(l, ns, a + 2, b);
    assert forall|j: int| 2 <= j < a implies l[j] != 'T' by {
        assert(l.subrange(1, a)[j - 1] == l[j]);
    }
    lemma_a_from_at(l, ns, 2, a);
}

/// The position of an action among the four words, and that the words
/// before it begin otherwise.
proof fn lemma_word_index(w: Seq<char>) -> (k: int)
    requires
        w == "installed"@ || w == "removed"@ || w == "upgraded"@ || w == "downgraded"@,
    ensures
        0 <= k < 4,
        action_words()[k] == w,
        w.len() > 0,
        forall|j: int|
            0 <= j < k ==> (#[trigger] action_words()[j]).len() > 0 && action_words()[j][0] != w[0],
{
    reveal_strlit("installed");
    reveal_strlit("removed");
    reveal_strlit("upgraded");
    reveal_strlit("downgraded");
    if w == "installed"@ {
        0
    } else if w == "removed"@ {
        1
    } else if w == "upgraded"@ {
        2
    } else {
        3
    }
}

/// A laid-out line is listed with its date, time, action, name and rest.
proof fn lemma_line_listed(
    l: Seq<char>,
    d: Seq<char>,
    t: Seq<char>,
    z: Seq<char>,
    w: Seq<char>,
    name: Seq<char>,
    rest: Seq<char>,
    k: int,
)
    requires
        line_parts(l, d, t, z, w, name, rest),
        d.len() > 0 && t.len() > 0 && z.len() > 0 && rest.len() > 0,
        forall|i: int| 0 <= i < d.len() ==> d[i] != 'T',
        forall|i: int| 0 <= i < t.len() ==> t[i] != '+',
        forall|i: int| 0 <= i < z.len() ==> z[i] != ']',
        forall|i: int| 0 <= i < name.len() ==> name[i] != '+',
        0 <= k < 4,
        action_words()[k] == w,
        forall|j: int|
            0 <= j < k ==> (#[trigger] action_words()[j]).len() > 0 && action_words()[j][0] != w[0],
        w.len() > 0,
    ensures
        package_log_spec(l, name) == Some(
            "["@ + d + "  "@ + t + "] : "@ + w + " "@ + name + " "@ + rest,
        ),
{
    lemma_line_read(l, d, t, z, w, name, rest, k);
    assert(l.subrange(0, 0) =~= Seq::<char>::empty());
    assert(Seq::<char>::empty() + "["@ =~= "["@);
}

/// The package log of a package lists each line of the pacman log that
/// installs, removes, upgrades or downgrades it: a line
/// `[dateTtime+zone] [ALPM] action name rest` is listed as
/// `[date  time] : action name rest`. The date holds no `T`, the time no
/// `+`, the zone no `]`; date, time, zone and rest are not empty; the name
/// is made of letters, digits and `@._-`.
pub proof fn law_package_log_lists_actions(
    d: Seq<char>,
    t: Seq<char>,
    z: Seq<char>,
    w: Seq<char>,
    name: Seq<char>,
    rest: Seq<char>,
)
    requires
        d.len() > 0 && t.len() > 0 && z.len() > 0 && rest.len() > 0 && name.len() > 0,
        forall|i: int| 0 <= i < d.len() ==> d[i] != 'T',
        forall|i: int| 0 <= i < t.len() ==> t[i] != '+',
        forall|i: int| 0 <= i < z.len() ==> z[i] != ']',
        w == "installed"@ || w == "removed"@ || w == "upgraded"@ || w == "downgraded"@,
        forall|i: int|
            0 <= i < name.len() ==> {
                let c = #[trigger] name[i];
                ('a' <= c && c <= 'z') || ('A' <= c && c <= 'Z') || ('0' <= c && c <= '9') || c
                    == '@' || c == '.' || c == '_' || c == '-'
            },
    ensures
        package_log_spec(
            "["@ + d + "T"@ + t + "+"@ + z + "] [ALPM] "@ + w + " "@ + name + " "@ + rest,
            name,
        ) == Some("["@ + d + "  "@ + t + "] : "@ + w + " "@ + name + " "@ + rest),
{
    let l = "["@ + d + "T"@ + t + "+"@ + z + "] [ALPM] "@ + w + " "@ + name + " "@ + rest;
    lemma_line_parts(d, t, z, w, name, rest);
    let k = lemma_word_index(w);
    assert forall|i: int| 0 <= i < name.len() implies name[i] != '+' by {
        let c = name[i];
    }
    lemma_line_listed(l, d, t, z, w, name, rest, k);
}

} // verus!
