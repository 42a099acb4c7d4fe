//! The pacman log: parsing its lines, removing terminal colour codes,
//! filtering and copying.
use vstd::prelude::*;
use vstd::string::StringSliceAdditionalSpecFns;

use crate::pkg_object::{format_size, size_text};
use crate::text::{
    chars_of, string_from_range, first_in, first_pair_in, find_char, find_pair,
    lemma_first_in_bounds, lemma_first_pair_in_bounds, push_str, push_char, contains_nocase,
    bytes_eq_nocase, contains_ignore_ascii_case, eq_ignore_ascii_case, string_of, views, trimmed,
    trim_chars, lemma_contains_self,
};
use crate::pkglog::single_line;

verus! {

//------------------------------------------------------------------------------
// STRUCT: LogLine
//------------------------------------------------------------------------------
/// One line of the pacman log: `[date T time +zone] [category] message`.
#[derive(Debug)]
pub struct LogLine {
    pub date: String,
    pub time: String,
    pub category: String,
    pub message: String,
}

/// The parts of a log line: the date before the first `T` of the time
/// stamp, the time between it and the first `+` after it, the category in
/// the second pair of brackets, and the message after it.
pub open spec fn parse_spec(s: Seq<char>) -> Option<(Seq<char>, Seq<char>, Seq<char>, Seq<char>)> {
    if s.len() == 0 || s[0] != '[' {
        None
    } else {
        match first_pair_in(s, 1, s.len() as int, ']', ' ') {
            None => None,
            Some(p1) => match first_in(s, 1, p1, 'T') {
                None => None,
                Some(t) => match first_in(s, t + 1, p1, '+') {
                    None => None,
                    Some(plus) => if p1 + 2 >= s.len() || s[p1 + 2] != '[' {
                        None
                    } else {
                        match first_pair_in(s, p1 + 3, s.len() as int, ']', ' ') {
                            None => None,
                            Some(p2) => Some(
                                (
                                    s.subrange(1, t),
                                    s.subrange(t + 1, plus),
                                    s.subrange(p1 + 3, p2),
                                    s.subrange(p2 + 2, s.len() as int),
                                ),
                            ),
                        }
                    },
                },
            },
        }
    }
}

/// `s` holds no character `c`.
pub open spec fn lacks(s: Seq<char>, c: char) -> bool {
    forall|i: int| 0 <= i < s.len() ==> s[i] != c
}

/// The log line made of its parts: `[dateTtime+zone] [category] message`.
pub open spec fn log_line_text(
    d: Seq<char>,
    t: Seq<char>,
    z: Seq<char>,
    c: Seq<char>,
    m: Seq<char>,
) -> Seq<char> {
    seq!['['] + d + seq!['T'] + t + seq!['+'] + z + seq![']', ' ', '['] + c + seq![']', ' '] + m
}

proof fn lemma_first_in_at(s: Seq<char>, lo: int, hi: int, c: char, k: int)
    requires
        lo <= k < hi,
        s[k] == c,
        forall|j: int| lo <= j < k ==> s[j] != c,
    ensures
        first_in(s, lo, hi, c) == Some(k),
    decreases k - lo,
{
    if lo < k {
        lemma_first_in_at(s, lo + 1, hi, c, k);
    }
}

proof fn lemma_first_pair_at(s: Seq<char>, lo: int, hi: int, a: char, b: char, k: int)
    requires
        lo <= k,
        k + 1 < hi,
        s[k] == a,
        s[k + 1] == b,
        forall|j: int| lo <= j < k ==> s[j] != a,
    ensures
        first_pair_in(s, lo, hi, a, b) == Some(k),
    decreases k - lo,
{
    if lo < k {
        lemma_first_pair_at(s, lo + 1, hi, a, b, k);
    }
}

/// A log line built from its parts parses back into them: the date without
/// `T`, the time without `+`, and date, time, zone and category without
/// `]`; the message is any text.
pub proof fn law_log_line_round_trip(
    d: Seq<char>,
    t: Seq<char>,
    z: Seq<char>,
    c: Seq<char>,
    m: Seq<char>,
)
    requires
        lacks(d, 'T'),
        lacks(d, ']'),
        lacks(t, '+'),
        lacks(t, ']'),
        lacks(z, ']'),
        lacks(c, ']'),
    ensures
        parse_spec(log_line_text(d, t, z, c, m)) == Some((d, t, c, m)),
{
    let l = log_line_text(d, t, z, c, m);
    let it: int = d.len() as int + 1;
    let ip: int = it + 1 + t.len();
    let ib: int = ip + 1 + z.len();
    let ic: int = ib + 3 + c.len();
    assert(l.len() == ic + 2 + m.len());
    assert(l[0] == '[');
    assert forall|j: int| 1 <= j < it implies l[j] == d[j - 1] by {}
    assert(l[it] == 'T');
    assert forall|j: int| it < j < ip implies l[j] == t[j - it - 1] by {}
    assert(l[ip] == '+');
    assert forall|j: int| ip < j < ib implies l[j] == z[j - ip - 1] by {}
    assert(l[ib] == ']' && l[ib + 1] == ' ' && l[ib + 2] == '[');
    assert forall|j: int| ib + 2 < j < ic implies l[j] == c[j - ib - 3] by {}
    assert(l[ic] == ']' && l[ic + 1] == ' ');
    assert forall|j: int| ic + 2 <= j < l.len() implies l[j] == m[j - ic - 2] by {}
    assert forall|j: int| 1 <= j < ib implies l[j] != ']' by {
        if j < it {
            assert(l[j] == d[j - 1]);
        } else if j == it || j == ip {
        } else if j < ip {
            assert(l[j] == t[j - it - 1]);
        } else {
            assert(l[j] == z[j - ip - 1]);
        }
    }
    lemma_first_pair_at(l, 1, l.len() as int, ']', ' ', ib);
    assert forall|j: int| 1 <= j < it implies l[j] != 'T' by {
        assert(l[j] == d[j - 1]);
    }
    lemma_first_in_at(l, 1, ib, 'T', it);
    assert forall|j: int| it + 1 <= j < ip implies l[j] != '+' by {
        assert(l[j] == t[j - it - 1]);
    }
    lemma_first_in_at(l, it + 1, ib, '+', ip);
    assert forall|j: int| ib + 3 <= j < ic implies l[j] != ']' by {
        assert(l[j] == c[j - ib - 3]);
    }
    lemma_first_pair_at(l, ib + 3, l.len() as int, ']', ' ', ic);
    assert(l.subrange(1, it) =~= d);
    assert(l.subrange(it + 1, ip) =~= t);
    assert(l.subrange(ib + 3, ic) =~= c);
    assert(l.subrange(ic + 2, l.len() as int) =~= m);
}

impl LogLine {
    //---------------------------------------
    // Parse function
    //---------------------------------------
    /// Splits a log line into its parts; `None` when it is not of the form
    /// `[dateTtime+zone] [category] message`.
    pub fn parse(line: &str) -> (r: Option<Self>)
        ensures
            match parse_spec(line@) {
                None => r.is_none(),
                Some(p) => r.is_some() && r.unwrap().date@ == p.0 && r.unwrap().time@ == p.1
                    && r.unwrap().category@ == p.2 && r.unwrap().message@ == p.3,
            },
    {
        let s = chars_of(line);
        let n = s.len();
        proof {
            lemma_first_pair_in_bounds(s@, 1, n as int, ']', ' ');
        }
        if n == 0 || s[0] != '[' {
            return None;
        }
        let p1 = match find_pair(&s, 1, n, ']', ' ') {
            Some(p) => p,
            None => return None,
        };
        proof {
            lemma_first_in_bounds(s@, 1, p1 as int, 'T');
        }
        let t = match find_char(&s, 1, p1, 'T') {
            Some(t) => t,
            None => return None,
        };
        proof {
            lemma_first_in_bounds(s@, t + 1, p1 as int, '+');
        }
        let plus = match find_char(&s, t + 1, p1, '+') {
            Some(p) => p,
            None => return None,
        };
        if p1 + 2 >= n || s[p1 + 2] != '[' {
            return None;
        }
        proof {
            lemma_first_pair_in_bounds(s@, p1 + 3, n as int, ']', ' ');
        }
        let p2 = match find_pair(&s, p1 + 3, n, ']', ' ') {
            Some(p) => p,
            None => return None,
        };
        Some(
            LogLine {
                date: string_from_range(&s, 1, t),
                time: string_from_range(&s, t + 1, plus),
                category: string_from_range(&s, p1 + 3, p2),
                message: string_from_range(&s, p2 + 2, n),
            },
        )
    }
}

//------------------------------------------------------------------------------
// The log window's reading of a line
//------------------------------------------------------------------------------
/// The first position `p` in `lo..hi` with `a`, `b`, `c` at `p`, `p + 1`,
/// `p + 2`, all before `hi`.
pub open spec fn first_triple_in(s: Seq<char>, lo: int, hi: int, a: char, b: char, c: char) -> Option<
    int,
>
    decreases hi - lo,
{
    if lo + 2 >= hi {
        None
    } else if s[lo] == a && s[lo + 1] == b && s[lo + 2] == c {
        Some(lo)
    } else {
        first_triple_in(s, lo + 1, hi, a, b, c)
    }
}

proof fn lemma_first_triple_in_bounds(s: Seq<char>, lo: int, hi: int, a: char, b: char, c: char)
    ensures
        first_triple_in(s, lo, hi, a, b, c) matches Some(p) ==> lo <= p && p + 2 < hi,
    decreases hi - lo,
{
    if lo + 2 < hi && !(s[lo] == a && s[lo + 1] == b && s[lo + 2] == c) {
        lemma_first_triple_in_bounds(s, lo + 1, hi, a, b, c);
    }
}

fn find_triple(v: &Vec<char>, lo: usize, hi: usize, a: char, b: char, c: char) -> (r: Option<
    usize,
>)
    requires
        hi <= v@.len(),
    ensures
        r matches Some(p) ==> first_triple_in(v@, lo as int, hi as int, a, b, c) == Some(p as int),
        r is None ==> first_triple_in(v@, lo as int, hi as int, a, b, c) is None,
{
    let mut i = lo;
    while i < hi && i + 1 < hi && i + 2 < hi
        invariant
            lo <= i,
            hi <= v@.len(),
            first_triple_in(v@, lo as int, hi as int, a, b, c) == first_triple_in(
                v@,
                i as int,
                hi as int,
                a,
                b,
                c,
            ),
        decreases hi - i,
    {
        if v[i] == a && v[i + 1] == b && v[i + 2] == c {
            return Some(i);
        }
        i = i + 1;
    }
    None
}

/// Where the pattern `\[([^T]+)T([^+]+)\+.+?\] \[(.+?)\] (.+)` of the log
/// window matches a line (without line breaks) when it starts at `b`: the
/// positions of the `T`, of the `+`, of the `] [` and of the `] ` that end
/// the groups. The date runs to the first `T`, the time to the first `+`
/// after it; the lazy runs take the first `] [` at least two places after
/// the `+`, then the first `] ` at least one place after that with some
/// text after it.
pub open spec fn window_match_at(s: Seq<char>, b: int) -> Option<(int, int, int, int)> {
    if !(0 <= b < s.len()) || s[b] != '[' {
        None
    } else {
        match first_in(s, b + 1, s.len() as int, 'T') {
            None => None,
            Some(t) => if t < b + 2 {
                None
            } else {
                match first_in(s, t + 1, s.len() as int, '+') {
                    None => None,
                    Some(p) => if p < t + 2 {
                        None
                    } else {
                        match first_triple_in(s, p + 2, s.len() as int, ']', ' ', '[') {
                            None => None,
                            Some(k) => match first_pair_in(s, k + 4, s.len() - 1, ']', ' ') {
                                None => None,
                                Some(e) => Some((t, p, k, e)),
                            },
                        }
                    }
                }
            },
        }
    }
}

/// The leftmost start from `i` on at which the pattern matches, with the
/// positions of the match.
pub open spec fn window_match_from(s: Seq<char>, i: int) -> Option<(int, int, int, int, int)>
    decreases s.len() - i,
{
    if i < 0 || i >= s.len() {
        None
    } else {
        match window_match_at(s, i) {
            Some(m) => Some((i, m.0, m.1, m.2, m.3)),
            None => window_match_from(s, i + 1),
        }
    }
}

/// The log window's parts of a line: date, time, category, and the message
/// trimmed, from the leftmost match of its pattern.
pub open spec fn window_parse_spec(s: Seq<char>) -> Option<
    (Seq<char>, Seq<char>, Seq<char>, Seq<char>),
> {
    match window_match_from(s, 0) {
        None => None,
        Some(m) => Some(
            (
                s.subrange(m.0 + 1, m.1),
                s.subrange(m.1 + 1, m.2),
                s.subrange(m.3 + 3, m.4),
                trimmed(s.subrange(m.4 + 2, s.len() as int)),
            ),
        ),
    }
}

proof fn lemma_first_triple_at(s: Seq<char>, lo: int, hi: int, a: char, b: char, c: char, k: int)
    requires
        lo <= k,
        k + 2 < hi,
        s[k] == a,
        s[k + 1] == b,
        s[k + 2] == c,
        forall|j: int| lo <= j < k ==> s[j] != a,
    ensures
        first_triple_in(s, lo, hi, a, b, c) == Some(k),
    decreases k - lo,
{
    if lo < k {
        lemma_first_triple_at(s, lo + 1, hi, a, b, c, k);
    }
}

/// The log window reads a line built from its parts back into them, the
/// message trimmed: the date without `T`, the time without `+`, zone and
/// category without `]`, and all of them and the message not empty.
pub proof fn law_window_line_round_trip(
    d: Seq<char>,
    t: Seq<char>,
    z: Seq<char>,
    c: Seq<char>,
    m: Seq<char>,
)
    requires
        d.len() > 0 && t.len() > 0 && z.len() > 0 && c.len() > 0 && m.len() > 0,
        lacks(d, 'T'),
        lacks(t, '+'),
        lacks(z, ']'),
        lacks(c, ']'),
    ensures
        window_parse_spec(log_line_text(d, t, z, c, m)) == Some((d, t, c, trimmed(m))),
{
    let l = log_line_text(d, t, z, c, m);
    let it: int = d.len() as int + 1;
    let ip: int = it + 1 + t.len();
    let ib: int = ip + 1 + z.len();
    let ic: int = ib + 3 + c.len();
    assert(l.len() == ic + 2 + m.len());
    assert(l[0] == '[');
    assert forall|j: int| 1 <= j < it implies l[j] == d[j - 1] by {}
    assert(l[it] == 'T');
    assert forall|j: int| it < j < ip implies l[j] == t[j - it - 1] by {}
    assert(l[ip] == '+');
    assert forall|j: int| ip < j < ib implies l[j] == z[j - ip - 1] by {}
    assert(l[ib] == ']' && l[ib + 1] == ' ' && l[ib + 2] == '[');
    assert forall|j: int| ib + 2 < j < ic implies l[j] == c[j - ib - 3] by {}
    assert(l[ic] == ']' && l[ic + 1] == ' ');
    assert forall|j: int| ic + 2 <= j < l.len() implies l[j] == m[j - ic - 2] by {}
    assert forall|j: int| 1 <= j < it implies l[j] != 'T' by {
        assert(l[j] == d[j - 1]);
    }
    lemma_first_in_at(l, 1, l.len() as int, 'T', it);
    assert forall|j: int| it + 1 <= j < ip implies l[j] != '+' by {
        assert(l[j] == t[j - it - 1]);
    }
    lemma_first_in_at(l, it + 1, l.len() as int, '+', ip);
    assert forall|j: int| ip + 2 <= j < ib implies l[j] != ']' by {
        assert(l[j] == z[j - ip - 1]);
    }
    lemma_first_triple_at(l, ip + 2, l.len() as int, ']', ' ', '[', ib);
    assert forall|j: int| ib + 4 <= j < ic implies l[j] != ']' by {
        assert(l[j] == c[j - ib - 3]);
    }
    lemma_first_pair_at(l, ib + 4, l.len() - 1, ']', ' ', ic);
    assert(window_match_at(l, 0) == Some((it, ip, ib, ic)));
    assert(window_match_from(l, 0) == Some((0int, it, ip, ib, ic)));
    assert(l.subrange(1, it) =~= d);
    assert(l.subrange(it + 1, ip) =~= t);
    assert(l.subrange(ib + 3, ic) =~= c);
    assert(l.subrange(ic + 2, l.len() as int) =~= m);
}

fn window_match_exec(s: &Vec<char>, b: usize) -> (r: Option<(usize, usize, usize, usize)>)
    requires
        b < s@.len(),
    ensures
        r matches Some(x) ==> window_match_at(s@, b as int) == Some(
            (x.0 as int, x.1 as int, x.2 as int, x.3 as int),
        ),
        r is None ==> window_match_at(s@, b as int) is None,
{
    let n = s.len();
    if s[b] != '[' {
        return None;
    }
    proof {
        lemma_first_in_bounds(s@, b + 1, n as int, 'T');
    }
    let t = match find_char(s, b + 1, n, 'T') {
        Some(t) => t,
        None => return None,
    };
    if t < b + 2 {
        return None;
    }
    proof {
        lemma_first_in_bounds(s@, t + 1, n as int, '+');
    }
    let p = match find_char(s, t + 1, n, '+') {
        Some(p) => p,
        None => return None,
    };
    if p < t + 2 {
        return None;
    }
    if p + 1 >= n {
        assert(first_triple_in(s@, p + 2, n as int, ']', ' ', '[') is None);
        return None;
    }
    proof {
        lemma_first_triple_in_bounds(s@, p + 2, n as int, ']', ' ', '[');
    }
    let k = match find_triple(s, p + 2, n, ']', ' ', '[') {
        Some(k) => k,
        None => return None,
    };
    let lo = k + 3;
    if lo >= n - 1 {
        assert(first_pair_in(s@, k + 4, n - 1, ']', ' ') is None);
        return None;
    }
    let e = match find_pair(s, lo + 1, n - 1, ']', ' ') {
        Some(e) => e,
        None => return None,
    };
    Some((t, p, k, e))
}

impl LogLine {
    /// Reads a line as the log window does, by the leftmost match of its
    /// pattern; `None` when the pattern does not match.
    pub fn parse_window(line: &str) -> (r: Option<Self>)
        requires
            single_line(line@),
        ensures
            match window_parse_spec(line@) {
                None => r.is_none(),
                Some(q) => r.is_some() && r.unwrap().date@ == q.0 && r.unwrap().time@ == q.1
                    && r.unwrap().category@ == q.2 && r.unwrap().message@ == q.3,
            },
    {
        let s = chars_of(line);
        let n = s.len();
        let mut b: usize = 0;
        while b < n
            invariant
                n == s@.len(),
                s@ == line@,
                window_match_from(s@, 0) == window_match_from(s@, b as int),
            decreases n - b,
        {
            match window_match_exec(&s, b) {
                Some(m) => {
                    let (t, p, k, e) = m;
                    proof {
                        lemma_first_in_bounds(s@, b + 1, n as int, 'T');
                        lemma_first_in_bounds(s@, t + 1, n as int, '+');
                        lemma_first_triple_in_bounds(s@, p + 2, n as int, ']', ' ', '[');
                        lemma_first_pair_in_bounds(s@, k + 4, n - 1, ']', ' ');
                    }
                    let date = string_from_range(&s, b + 1, t);
                    let time = string_from_range(&s, t + 1, p);
                    let category = string_from_range(&s, k + 3, e);
                    let rest = string_from_range(&s, e + 2, n);
                    let rest_chars = chars_of(rest.as_str());
                    let msg = string_of(&trim_chars(&rest_chars));
                    return Some(LogLine { date, time, category, message: msg });
                },
                None => {},
            }
            b = b + 1;
        }
        None
    }
}

//------------------------------------------------------------------------------
// Terminal colour codes
//------------------------------------------------------------------------------
pub open spec fn esc() -> char {
    '\x1b'
}

/// A character that may stand in the parameters of a colour code.
pub open spec fn is_code_param(c: char) -> bool {
    ('0' <= c && c <= '9') || c == ';'
}

/// The end of the run of parameter characters starting at `j`.
pub open spec fn param_run_end(s: Seq<char>, j: int) -> int
    decreases s.len() - j,
{
    if 0 <= j < s.len() && is_code_param(s[j]) {
        param_run_end(s, j + 1)
    } else {
        j
    }
}

/// The length of the colour code at `i` (`ESC [ params m` or `ESC ( B`),
/// or 0 if none starts there.
pub open spec fn code_len(s: Seq<char>, i: int) -> int {
    if !(0 <= i < s.len()) || s[i] != esc() {
        0
    } else if i + 1 < s.len() && s[i + 1] == '[' {
        let e = param_run_end(s, i + 2);
        if e < s.len() && s[e] == 'm' {
            e + 1 - i
        } else {
            0
        }
    } else if i + 2 < s.len() && s[i + 1] == '(' && s[i + 2] == 'B' {
        3
    } else {
        0
    }
}

proof fn lemma_param_run_end(s: Seq<char>, j: int)
    requires
        0 <= j,
    ensures
        j <= param_run_end(s, j),
        param_run_end(s, j) <= s.len() || param_run_end(s, j) == j,
    decreases s.len() - j,
{
    if 0 <= j < s.len() && is_code_param(s[j]) {
        lemma_param_run_end(s, j + 1);
    }
}

/// `s` from position `i` on, without its colour codes, scanning left to
/// right.
pub open spec fn strip_from(s: Seq<char>, i: int) -> Seq<char>
    decreases s.len() - i,
{
    if i < 0 || i >= s.len() {
        Seq::empty()
    } else if code_len(s, i) > 0 {
        strip_from(s, i + code_len(s, i))
    } else {
        seq![s[i]] + strip_from(s, i + 1)
    }
}

/// `s` without its colour codes.
pub open spec fn strip_codes(s: Seq<char>) -> Seq<char> {
    strip_from(s, 0)
}

fn code_len_at(s: &Vec<char>, i: usize) -> (r: usize)
    requires
        i < s@.len(),
    ensures
        r as int == code_len(s@, i as int),
{
    let n = s.len();
    if s[i] != '\x1b' {
        return 0;
    }
    if i + 1 < n && s[i + 1] == '[' {
        let mut j = i + 2;
        proof {
            lemma_param_run_end(s@, j as int);
        }
        while j < n && (('0' <= s[j] && s[j] <= '9') || s[j] == ';')
            invariant
                n == s@.len(),
                i + 2 <= j <= n,
                param_run_end(s@, i + 2) == param_run_end(s@, j as int),
            decreases n - j,
        {
            j = j + 1;
        }
        if j < n && s[j] == 'm' {
            j + 1 - i
        } else {
            0
        }
    } else if i + 1 < n && i + 2 < n && s[i + 1] == '(' && s[i + 2] == 'B' {
        3
    } else {
        0
    }
}

proof fn lemma_param_run_shift(pre: Seq<char>, x: Seq<char>, j: int)
    requires
        0 <= j,
    ensures
        param_run_end(pre + x, pre.len() + j) == pre.len() + param_run_end(x, j),
    decreases x.len() - j,
{
    let s = pre + x;
    if j < x.len() {
        assert(s[pre.len() + j] == x[j]);
        if is_code_param(x[j]) {
            lemma_param_run_shift(pre, x, j + 1);
        }
    }
}

proof fn lemma_code_len_shift(pre: Seq<char>, x: Seq<char>, i: int)
    requires
        0 <= i,
    ensures
        code_len(pre + x, pre.len() + i) == code_len(x, i),
{
    let s = pre + x;
    let k = pre.len() + i;
    if i < x.len() {
        assert(s[k] == x[i]);
        if i + 1 < x.len() {
            assert(s[k + 1] == x[i + 1]);
        }
        if i + 2 < x.len() {
            assert(s[k + 2] == x[i + 2]);
        }
        lemma_param_run_shift(pre, x, i + 2);
        lemma_param_run_end(x, i + 2);
        let e = param_run_end(x, i + 2);
        if e < x.len() {
            assert(s[pre.len() + e] == x[e]);
        }
    }
}

/// What follows a prefix is stripped as if it stood alone.
proof fn lemma_strip_shift(pre: Seq<char>, x: Seq<char>, i: int)
    requires
        0 <= i,
    ensures
        strip_from(pre + x, pre.len() + i) == strip_from(x, i),
    decreases x.len() - i,
{
    let s = pre + x;
    if i < x.len() {
        lemma_code_len_shift(pre, x, i);
        lemma_param_run_end(x, i + 2);
        if code_len(x, i) > 0 {
            lemma_strip_shift(pre, x, i + code_len(x, i));
        } else {
            assert(s[pre.len() + i] == x[i]);
            lemma_strip_shift(pre, x, i + 1);
        }
    }
}

/// Stripping colour codes removes each code `ESC [ params m` (params
/// digits and `;`) and `ESC ( B` and keeps every other character: a
/// character other than ESC stays in front of the stripped rest, a code in
/// front goes, and a text without ESC is left as it is.
pub proof fn law_strip_codes(x: Seq<char>, params: Seq<char>, ch: char)
    requires
        forall|i: int| 0 <= i < params.len() ==> is_code_param(#[trigger] params[i]),
    ensures
        ch != esc() ==> strip_codes(seq![ch] + x) == seq![ch] + strip_codes(x),
        strip_codes(seq![esc(), '['] + params + seq!['m'] + x) == strip_codes(x),
        strip_codes(seq![esc(), '(', 'B'] + x) == strip_codes(x),
        lacks(x, esc()) ==> strip_codes(x) == x,
{
    if ch != esc() {
        let s = seq![ch] + x;
        assert(code_len(s, 0) == 0);
        lemma_strip_shift(seq![ch], x, 0);
    }
    let pre = seq![esc(), '['] + params + seq!['m'];
    let s1 = pre + x;
    assert forall|j: int| 2 <= j < 2 + params.len() implies is_code_param(#[trigger] s1[j]) by {
        assert(s1[j] == params[j - 2]);
    }
    let e: int = params.len() as int + 2;
    assert(s1[e] == 'm');
    lemma_param_run_at(s1, 2, e);
    assert(code_len(s1, 0) == pre.len());
    lemma_strip_shift(pre, x, 0);
    let pre2 = seq![esc(), '(', 'B'];
    let s2 = pre2 + x;
    assert(code_len(s2, 0) == 3);
    lemma_strip_shift(pre2, x, 0);
    if lacks(x, esc()) {
        lemma_strip_plain(x, 0);
    }
}

proof fn lemma_param_run_at(s: Seq<char>, j: int, e: int)
    requires
        0 <= j <= e < s.len(),
        forall|k: int| j <= k < e ==> is_code_param(#[trigger] s[k]),
        !is_code_param(s[e]),
    ensures
        param_run_end(s, j) == e,
    decreases e - j,
{
    if j < e {
        lemma_param_run_at(s, j + 1, e);
    }
}

proof fn lemma_strip_plain(x: Seq<char>, i: int)
    requires
        0 <= i <= x.len(),
        lacks(x, esc()),
    ensures
        strip_from(x, i) == x.subrange(i, x.len() as int),
    decreases x.len() - i,
{
    if i < x.len() {
        lemma_strip_plain(x, i + 1);
        assert(x.subrange(i, x.len() as int) =~= seq![x[i]] + x.subrange(i + 1, x.len() as int));
    } else {
        assert(x.subrange(i, x.len() as int) =~= Seq::<char>::empty());
    }
}

/// Removes the terminal colour codes (`ESC [ digits-and-semicolons m` and
/// `ESC ( B`) from a line.
pub fn strip_color_codes(line: &str) -> (r: String)
    ensures
        r@ == strip_codes(line@),
{
    let s = chars_of(line);
    let n = s.len();
    let mut out: Vec<char> = Vec::new();
    let mut i: usize = 0;
    while i < n
        invariant
            n == s@.len(),
            i <= n,
            strip_codes(s@) == out@ + strip_from(s@, i as int),
        decreases n - i,
    {
        let k = code_len_at(&s, i);
        if k > 0 {
            i = i + k;
        } else {
            let ghost prev = out@;
            out.push(s[i]);
            assert(out@ + strip_from(s@, i + 1) == prev + strip_from(s@, i as int)) by {
                assert(strip_from(s@, i as int) == seq![s@[i as int]] + strip_from(s@, i + 1));
                assert(prev + (seq![s@[i as int]] + strip_from(s@, i + 1)) == prev.push(
                    s@[i as int],
                ) + strip_from(s@, i + 1));
            }
            i = i + 1;
        }
    }
    assert(out@ + strip_from(s@, n as int) == out@);
    string_of(&out)
}

//------------------------------------------------------------------------------
// ENUM: LogSearchMode
//------------------------------------------------------------------------------
/// What the log search looks at.
#[derive(Clone, Copy, Debug, PartialEq, Eq, Structural)]
pub enum LogSearchMode {
    Messages,
    Packages,
    Exact,
}

impl Default for LogSearchMode {
    fn default() -> (r: Self)
        ensures
            r == LogSearchMode::Messages,
    {
        LogSearchMode::Messages
    }
}

impl LogSearchMode {
    /// The next mode, after the last the first.
    pub fn next(self) -> (r: Self)
        ensures
            r == next_log_mode(self),
    {
        match self {
            LogSearchMode::Messages => LogSearchMode::Packages,
            LogSearchMode::Packages => LogSearchMode::Exact,
            LogSearchMode::Exact => LogSearchMode::Messages,
        }
    }

    /// The previous mode, before the first the last.
    pub fn previous(self) -> (r: Self)
        ensures
            r == previous_log_mode(self),
    {
        match self {
            LogSearchMode::Messages => LogSearchMode::Exact,
            LogSearchMode::Packages => LogSearchMode::Messages,
            LogSearchMode::Exact => LogSearchMode::Packages,
        }
    }

    /// The label of the mode.
    pub fn label(self) -> (r: &'static str)
        ensures
            r@ == log_mode_label(self),
    {
        match self {
            LogSearchMode::Messages => "Messages",
            LogSearchMode::Packages => "Packages",
            LogSearchMode::Exact => "Exact",
        }
    }
}

pub open spec fn next_log_mode(m: LogSearchMode) -> LogSearchMode {
    match m {
        LogSearchMode::Messages => LogSearchMode::Packages,
        LogSearchMode::Packages => LogSearchMode::Exact,
        LogSearchMode::Exact => LogSearchMode::Messages,
    }
}

pub open spec fn previous_log_mode(m: LogSearchMode) -> LogSearchMode {
    match m {
        LogSearchMode::Messages => LogSearchMode::Exact,
        LogSearchMode::Packages => LogSearchMode::Messages,
        LogSearchMode::Exact => LogSearchMode::Packages,
    }
}

pub open spec fn log_mode_label(m: LogSearchMode) -> Seq<char> {
    match m {
        LogSearchMode::Messages => "Messages"@,
        LogSearchMode::Packages => "Packages"@,
        LogSearchMode::Exact => "Exact"@,
    }
}

/// Cycling the log search mode forward then back, or back then forward,
/// returns to the mode one started from.
pub proof fn law_log_mode_cycle(m: LogSearchMode)
    ensures
        previous_log_mode(next_log_mode(m)) == m,
        next_log_mode(previous_log_mode(m)) == m,
{
}

//------------------------------------------------------------------------------
// Filtering log lines
//------------------------------------------------------------------------------
/// The words that open a message about a package transaction.
pub open spec fn is_transaction_word(w: Seq<char>) -> bool {
    w == "installed"@ || w == "reinstalled"@ || w == "removed"@ || w == "upgraded"@ || w
        == "downgraded"@
}

/// The first two space-separated words of a message that has at least two
/// spaces (what `splitn(3, ' ')` yields as its first two of three parts).
pub open spec fn first_two_words(msg: Seq<char>) -> Option<(Seq<char>, Seq<char>)> {
    match first_in(msg, 0, msg.len() as int, ' ') {
        None => None,
        Some(a) => match first_in(msg, a + 1, msg.len() as int, ' ') {
            None => None,
            Some(b) => Some((msg.subrange(0, a), msg.subrange(a + 1, b))),
        },
    }
}

/// UTF-8 bytes of characters.
pub open spec fn utf8(s: Seq<char>) -> Seq<u8> {
    vstd::utf8::encode_utf8(s)
}

/// Whether a log message passes the search: with an empty term every one
/// does; in message mode the message holds the term up to ASCII case; in
/// the package modes the message must be about a package transaction and
/// the package name holds (or, in exact mode, equals) the term up to ASCII
/// case.
pub open spec fn log_matches_spec(term: Seq<char>, mode: LogSearchMode, msg: Seq<char>) -> bool {
    if utf8(term).len() == 0 {
        true
    } else if mode == LogSearchMode::Messages {
        contains_nocase(utf8(msg), utf8(term))
    } else {
        match first_two_words(msg) {
            None => false,
            Some(w) => is_transaction_word(w.0) && if mode == LogSearchMode::Packages {
                contains_nocase(utf8(w.1), utf8(term))
            } else {
                bytes_eq_nocase(utf8(w.1), utf8(term))
            },
        }
    }
}

/// The log search by package reads the package of a transaction message
/// `action name rest` (action one of installed, reinstalled, removed,
/// upgraded, downgraded; name without spaces): the exact search for the
/// name and the package search for it pass it; a message whose first word
/// is no such action passes neither package search; and the message
/// search for the whole message passes it.
pub proof fn law_log_search_reads_package(
    w: Seq<char>,
    name: Seq<char>,
    rest: Seq<char>,
    term: Seq<char>,
)
    requires
        name.len() > 0,
        forall|i: int| 0 <= i < name.len() ==> name[i] != ' ',
        forall|i: int| 0 <= i < w.len() ==> w[i] != ' ',
    ensures
        (w == "installed"@ || w == "reinstalled"@ || w == "removed"@ || w == "upgraded"@ || w
            == "downgraded"@) ==> log_matches_spec(name, LogSearchMode::Exact, w + " "@ + name + " "@ + rest)
            && log_matches_spec(name, LogSearchMode::Packages, w + " "@ + name + " "@ + rest),
        !(w == "installed"@ || w == "reinstalled"@ || w == "removed"@ || w == "upgraded"@ || w
            == "downgraded"@) && utf8(term).len() > 0 ==> !log_matches_spec(
            term,
            LogSearchMode::Exact,
            w + " "@ + name + " "@ + rest,
        ) && !log_matches_spec(term, LogSearchMode::Packages, w + " "@ + name + " "@ + rest),
        log_matches_spec(name, LogSearchMode::Messages, name),
{
    reveal_strlit(" ");
    let msg = w + " "@ + name + " "@ + rest;
    let a: int = w.len() as int;
    let b: int = a + 1 + name.len();
    assert forall|j: int| 0 <= j < a implies msg[j] != ' ' by {
        assert(msg[j] == w[j]);
    }
    assert(msg[a] == ' ');
    lemma_first_in_at(msg, 0, msg.len() as int, ' ', a);
    assert forall|j: int| a + 1 <= j < b implies msg[j] != ' ' by {
        assert(msg[j] == name[j - a - 1]);
    }
    assert(msg[b] == ' ');
    lemma_first_in_at(msg, a + 1, msg.len() as int, ' ', b);
    assert(msg.subrange(0, a) =~= w);
    assert(msg.subrange(a + 1, b) =~= name);
    assert(first_two_words(msg) == Some((w, name)));
    crate::text::lemma_utf8_nonempty(name);
    lemma_contains_self(utf8(name));
    assert(bytes_eq_nocase(utf8(name), utf8(name)));
}

fn is_transaction_word_exec(w: &str) -> (r: bool)
    ensures
        r == is_transaction_word(w@),
{
    crate::text::text_eq(w, "installed") || crate::text::text_eq(w, "reinstalled")
        || crate::text::text_eq(w, "removed") || crate::text::text_eq(w, "upgraded")
        || crate::text::text_eq(w, "downgraded")
}

/// Whether a log message passes the search for `term` (already trimmed and
/// lower-cased) in `mode`.
pub fn log_matches(term: &str, mode: LogSearchMode, msg: &str) -> (r: bool)
    ensures
        r == log_matches_spec(term@, mode, msg@),
{
    if term.as_bytes().len() == 0 {
        return true;
    }
    if mode == LogSearchMode::Messages {
        return contains_ignore_ascii_case(msg, term);
    }
    let s = chars_of(msg);
    let n = s.len();
    proof {
        lemma_first_in_bounds(s@, 0, n as int, ' ');
    }
    let a = match find_char(&s, 0, n, ' ') {
        Some(a) => a,
        None => return false,
    };
    proof {
        lemma_first_in_bounds(s@, a + 1, n as int, ' ');
    }
    let b = match find_char(&s, a + 1, n, ' ') {
        Some(b) => b,
        None => return false,
    };
    let prefix = string_from_range(&s, 0, a);
    let package = string_from_range(&s, a + 1, b);
    if !is_transaction_word_exec(prefix.as_str()) {
        return false;
    }
    if mode == LogSearchMode::Packages {
        contains_ignore_ascii_case(package.as_str(), term)
    } else {
        eq_ignore_ascii_case(package.as_str(), term)
    }
}

/// Whether a message reports a package being installed, removed, upgraded
/// or downgraded.
pub open spec fn is_package_event_spec(msg: Seq<char>) -> bool {
    ||| "installed "@.is_prefix_of(msg)
    ||| "removed "@.is_prefix_of(msg)
    ||| "upgraded "@.is_prefix_of(msg)
    ||| "downgraded "@.is_prefix_of(msg)
}

fn starts_with(msg: &Vec<char>, prefix: &str) -> (r: bool)
    ensures
        r == prefix@.is_prefix_of(msg@),
{
    let p = chars_of(prefix);
    if p.len() > msg.len() {
        return false;
    }
    let mut i: usize = 0;
    while i < p.len()
        invariant
            p@ == prefix@,
            p@.len() <= msg@.len(),
            i <= p@.len(),
            forall|k: int| 0 <= k < i ==> p@[k] == msg@[k],
        decreases p@.len() - i,
    {
        if p[i] != msg[i] {
            return false;
        }
        i = i + 1;
    }
    assert(p@ == msg@.subrange(0, p@.len() as int));
    true
}

/// Whether a message reports a package being installed, removed, upgraded
/// or downgraded (the "packages only" filter).
pub fn is_package_event(msg: &str) -> (r: bool)
    ensures
        r == is_package_event_spec(msg@),
{
    let s = chars_of(msg);
    starts_with(&s, "installed ") || starts_with(&s, "removed ") || starts_with(&s, "upgraded ")
        || starts_with(&s, "downgraded ")
}

//------------------------------------------------------------------------------
// Reading the log
//------------------------------------------------------------------------------
/// The parts of a parsed log line.
pub open spec fn log_view(l: LogLine) -> (Seq<char>, Seq<char>, Seq<char>, Seq<char>) {
    (l.date@, l.time@, l.category@, l.message@)
}

/// The lines of the log that parse once their colour codes are gone,
/// newest (last) first.
pub open spec fn parsed_log_spec(lines: Seq<Seq<char>>) -> Seq<
    (Seq<char>, Seq<char>, Seq<char>, Seq<char>),
>
    decreases lines.len(),
{
    if lines.len() == 0 {
        Seq::empty()
    } else {
        (match parse_spec(strip_codes(lines.last())) {
            Some(p) => seq![p],
            None => Seq::empty(),
        }) + parsed_log_spec(lines.drop_last())
    }
}

/// The log dialog lists newer lines first: the lines of a later part of
/// the log come before those of an earlier part, and a single line is
/// listed (its parts) when it parses once its colour codes are gone and
/// left out when not.
pub proof fn law_log_newest_first(a: Seq<Seq<char>>, b: Seq<Seq<char>>, x: Seq<char>)
    ensures
        parsed_log_spec(a + b) == parsed_log_spec(b) + parsed_log_spec(a),
        parsed_log_spec(seq![x]) == match parse_spec(strip_codes(x)) {
            Some(p) => seq![p],
            None => Seq::empty(),
        },
    decreases b.len(),
{
    assert(seq![x].drop_last() =~= Seq::<Seq<char>>::empty());
    assert(seq![x].last() == x);
    let hx: Seq<(Seq<char>, Seq<char>, Seq<char>, Seq<char>)> = match parse_spec(strip_codes(x)) {
        Some(p) => seq![p],
        None => Seq::empty(),
    };
    assert(parsed_log_spec(Seq::<Seq<char>>::empty()) =~= Seq::empty());
    assert(hx + Seq::<(Seq<char>, Seq<char>, Seq<char>, Seq<char>)>::empty() =~= hx);
    if b.len() == 0 {
        assert(a + b =~= a);
        assert(parsed_log_spec(b) + parsed_log_spec(a) =~= parsed_log_spec(a));
    } else {
        law_log_newest_first(a, b.drop_last(), x);
        assert((a + b).drop_last() =~= a + b.drop_last());
        assert((a + b).last() == b.last());
        let h: Seq<(Seq<char>, Seq<char>, Seq<char>, Seq<char>)> = match parse_spec(strip_codes(b.last())) {
            Some(p) => seq![p],
            None => Seq::empty(),
        };
        assert(h + (parsed_log_spec(b.drop_last()) + parsed_log_spec(a)) =~= (h + parsed_log_spec(
            b.drop_last(),
        )) + parsed_log_spec(a));
    }
}

/// The log lines the log dialog lists, newest first, from the lines of the
/// pacman log in file order.
pub fn parse_log(lines: &Vec<String>) -> (r: Vec<LogLine>)
    ensures
        r@.map_values(|l: LogLine| log_view(l)) == parsed_log_spec(views(lines@)),
{
    let mut out: Vec<LogLine> = Vec::new();
    let mut i: usize = lines.len();
    assert(views(lines@).take(lines@.len() as int) == views(lines@));
    assert(out@.map_values(|l: LogLine| log_view(l)) == Seq::<(Seq<char>, Seq<char>, Seq<char>, Seq<char>)>::empty());
    while i > 0
        invariant
            i <= lines@.len(),
            out@.map_values(|l: LogLine| log_view(l)) + parsed_log_spec(views(lines@).take(i as int))
                == parsed_log_spec(views(lines@)),
        decreases i,
    {
        let ghost prev = out@.map_values(|l: LogLine| log_view(l));
        let ghost rest = views(lines@).take(i as int);
        assert(rest.drop_last() == views(lines@).take(i - 1));
        assert(rest.last() == lines@[i - 1]@);
        let stripped = strip_color_codes(lines[i - 1].as_str());
        match LogLine::parse(stripped.as_str()) {
            Some(l) => {
                let ghost v = log_view(l);
                out.push(l);
                assert(out@.map_values(|l: LogLine| log_view(l)) == prev.push(v));
                assert(prev.push(v) + parsed_log_spec(views(lines@).take(i - 1)) == prev
                    + parsed_log_spec(rest));
            },
            None => {
                assert(parsed_log_spec(rest) == parsed_log_spec(views(lines@).take(i - 1)));
            },
        }
        i = i - 1;
    }
    assert(parsed_log_spec(views(lines@).take(0)) == Seq::<
        (Seq<char>, Seq<char>, Seq<char>, Seq<char>),
    >::empty());
    assert(out@.map_values(|l: LogLine| log_view(l)) + Seq::<
        (Seq<char>, Seq<char>, Seq<char>, Seq<char>),
    >::empty() == out@.map_values(|l: LogLine| log_view(l)));
    out
}

/// The size label of the log dialog: "Log file size: " and the size of
/// the log file (zero when it cannot be read).
pub fn log_size_label(size: u64) -> (r: String)
    requires
        size <= i64::MAX,
    ensures
        r@ == "Log file size: "@ + size_text(size as int),
{
    let text = format_size(size as i64);
    let mut s = String::new();
    push_str(&mut s, "Log file size: ");
    push_str(&mut s, text.as_str());
    s
}

//------------------------------------------------------------------------------
// Copying
//------------------------------------------------------------------------------
/// One row of the copied log table: `|date|time|message|`.
pub open spec fn log_row(l: LogLine) -> Seq<char> {
    "|"@ + l.date@ + "|"@ + l.time@ + "|"@ + l.message@ + "|\n"@
}

pub open spec fn log_rows(lines: Seq<LogLine>) -> Seq<char>
    decreases lines.len(),
{
    if lines.len() == 0 {
        Seq::empty()
    } else {
        log_rows(lines.drop_last()) + log_row(lines.last())
    }
}

/// The Markdown table of log lines that the copy action puts on the
/// clipboard.
pub fn log_markdown(lines: &Vec<LogLine>) -> (r: String)
    ensures
        r@ == "## Log Messages\n|Date|Time|Category|Message|\n|---|---|---|---|\n"@ + log_rows(
            lines@,
        ),
{
    let mut out = String::new();
    push_str(&mut out, "## Log Messages\n|Date|Time|Category|Message|\n|---|---|---|---|\n");
    let ghost head = out@;
    let mut i: usize = 0;
    while i < lines.len()
        invariant
            i <= lines@.len(),
            out@ == head + log_rows(lines@.take(i as int)),
        decreases lines@.len() - i,
    {
        let l = &lines[i];
        push_str(&mut out, "|");
        push_str(&mut out, l.date.as_str());
        push_str(&mut out, "|");
        push_str(&mut out, l.time.as_str());
        push_str(&mut out, "|");
        push_str(&mut out, l.message.as_str());
        push_str(&mut out, "|\n");
        assert(lines@.take(i + 1).drop_last() == lines@.take(i as int));
        i = i + 1;
    }
    assert(lines@.take(lines@.len() as int) == lines@);
    out
}

} // verus!
