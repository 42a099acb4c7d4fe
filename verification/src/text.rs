//! Text helpers shared by the views: ASCII case-insensitive matching,
//! whitespace handling, decimal numbers and small label builders.
use vstd::prelude::*;
use vstd::string::StringSliceAdditionalSpecFns;

verus! {

//------------------------------------------------------------------------------
// Characters and bytes
//------------------------------------------------------------------------------
/// The Unicode `White_Space` property, as `char::is_whitespace` documents it.
pub open spec fn is_ws(c: char) -> bool {
    let u = c as u32;
    ||| 0x09 <= u <= 0x0d
    ||| u == 0x20
    ||| u == 0x85
    ||| u == 0xa0
    ||| u == 0x1680
    ||| 0x2000 <= u <= 0x200a
    ||| u == 0x2028
    ||| u == 0x2029
    ||| u == 0x202f
    ||| u == 0x205f
    ||| u == 0x3000
}

/// Whether `c` is a whitespace character.
pub fn is_whitespace(c: char) -> (r: bool)
    ensures
        r == is_ws(c),
{
    let u = c as u32;
    (0x09 <= u && u <= 0x0d) || u == 0x20 || u == 0x85 || u == 0xa0 || u == 0x1680 || (0x2000 <= u
        && u <= 0x200a) || u == 0x2028 || u == 0x2029 || u == 0x202f || u == 0x205f || u == 0x3000
}

/// ASCII lower-casing of one byte.
pub open spec fn lower_byte(b: u8) -> u8 {
    if 0x41 <= b <= 0x5a {
        (b + 0x20) as u8
    } else {
        b
    }
}

pub fn to_lower_byte(b: u8) -> (r: u8)
    ensures
        r == lower_byte(b),
{
    if 0x41 <= b && b <= 0x5a {
        b + 0x20
    } else {
        b
    }
}

/// Two byte strings are equal up to ASCII case.
pub open spec fn bytes_eq_nocase(a: Seq<u8>, b: Seq<u8>) -> bool {
    &&& a.len() == b.len()
    &&& forall|i: int| 0 <= i < a.len() ==> lower_byte(#[trigger] a[i]) == lower_byte(b[i])
}

/// The window of `hay` of the length of `needle` at `start` equals `needle` up to ASCII case.
pub open spec fn window_matches(hay: Seq<u8>, needle: Seq<u8>, start: int) -> bool {
    &&& 0 <= start
    &&& start + needle.len() <= hay.len()
    &&& forall|j: int|
        0 <= j < needle.len() ==> lower_byte(#[trigger] hay[start + j]) == lower_byte(needle[j])
}

/// Some window of `hay` equals `needle` up to ASCII case.
pub open spec fn contains_nocase(hay: Seq<u8>, needle: Seq<u8>) -> bool {
    exists|start: int| window_matches(hay, needle, start)
}

/// Every byte string holds itself, and holds its own stretches.
pub proof fn lemma_contains_self(x: Seq<u8>)
    ensures
        contains_nocase(x, x),
{
    assert(window_matches(x, x, 0));
}

/// A byte string holds whatever a stretch of it holds up to ASCII case.
pub proof fn lemma_contains_in_stretch(x: Seq<u8>, a: Seq<u8>, b: Seq<u8>)
    ensures
        contains_nocase(a + x + b, x),
{
    let h = a + x + b;
    assert forall|j: int| 0 <= j < x.len() implies lower_byte(#[trigger] h[a.len() + j]) == lower_byte(x[j]) by {
        assert(h[a.len() + j] == x[j]);
    }
    assert(window_matches(h, x, a.len() as int));
}

fn window_matches_at(hay: &[u8], needle: &[u8], start: usize) -> (r: bool)
    requires
        start + needle@.len() <= hay@.len(),
    ensures
        r == window_matches(hay@, needle@, start as int),
{
    let hl = hay.len();
    let mut j: usize = 0;
    while j < needle.len()
        invariant
            hl == hay@.len(),
            start + needle@.len() <= hay@.len(),
            j <= needle@.len(),
            forall|k: int| 0 <= k < j ==> lower_byte(hay@[start + k]) == lower_byte(needle@[k]),
        decreases needle@.len() - j,
    {
        assert(start + j < hay@.len());
        if to_lower_byte(hay[start + j]) != to_lower_byte(needle[j]) {
            return false;
        }
        j = j + 1;
    }
    true
}

/// Whether some run of bytes of `hay` equals `needle` up to ASCII case (as
/// `windows(needle.len()).any(eq_ignore_ascii_case)` does).
pub fn bytes_contain_nocase(hay: &[u8], needle: &[u8]) -> (r: bool)
    requires
        needle@.len() > 0,
    ensures
        r == contains_nocase(hay@, needle@),
{
    if needle.len() > hay.len() {
        assert forall|start: int| !window_matches(hay@, needle@, start) by {}
        return false;
    }
    let last = hay.len() - needle.len();
    let mut start: usize = 0;
    loop
        invariant
            last + needle@.len() == hay@.len(),
            start <= last,
            forall|s: int| 0 <= s < start ==> !window_matches(hay@, needle@, s),
        ensures
            start == last,
            forall|s: int| 0 <= s <= start ==> !window_matches(hay@, needle@, s),
        decreases last - start,
    {
        if window_matches_at(hay, needle, start) {
            return true;
        }
        if start == last {
            break;
        }
        start = start + 1;
    }
    assert forall|s: int| !window_matches(hay@, needle@, s) by {
        if 0 <= s <= start {
        }
    }
    false
}

/// Whether the UTF-8 bytes of `hay` contain those of `needle` up to ASCII case.
pub fn contains_ignore_ascii_case(hay: &str, needle: &str) -> (r: bool)
    requires
        needle.spec_bytes().len() > 0,
    ensures
        r == contains_nocase(hay.spec_bytes(), needle.spec_bytes()),
{
    bytes_contain_nocase(hay.as_bytes(), needle.as_bytes())
}

/// Whether the UTF-8 bytes of `a` and `b` are equal up to ASCII case.
pub fn eq_ignore_ascii_case(a: &str, b: &str) -> (r: bool)
    ensures
        r == bytes_eq_nocase(a.spec_bytes(), b.spec_bytes()),
{
    let x = a.as_bytes();
    let y = b.as_bytes();
    if x.len() != y.len() {
        return false;
    }
    let mut i: usize = 0;
    while i < x.len()
        invariant
            x@ == a.spec_bytes(),
            y@ == b.spec_bytes(),
            x@.len() == y@.len(),
            i <= x@.len(),
            forall|k: int| 0 <= k < i ==> lower_byte(x@[k]) == lower_byte(y@[k]),
        decreases x@.len() - i,
    {
        if to_lower_byte(x[i]) != to_lower_byte(y[i]) {
            assert(lower_byte(x@[i as int]) != lower_byte(y@[i as int]));
            return false;
        }
        i = i + 1;
    }
    true
}

//------------------------------------------------------------------------------
// Building strings
//------------------------------------------------------------------------------
/// Appends one character (`String::push`).
#[verifier::external_body]
pub(crate) fn push_char(s: &mut String, c: char)
    ensures
        final(s)@ == old(s)@.push(c),
{
    s.push(c);
}

/// Appends a string slice.
pub fn push_str(s: &mut String, t: &str)
    ensures
        final(s)@ == old(s)@ + t@,
{
    for c in it: t.chars()
        invariant
            s@ == old(s)@ + it.seq().take(it.index() as int),
    {
        push_char(s, c);
        assert(it.seq().take(it.index() + 1) == it.seq().take(it.index() as int).push(c));
    }
}

/// The characters of a string slice.
pub fn chars_of(s: &str) -> (v: Vec<char>)
    ensures
        v@ == s@,
{
    let mut v: Vec<char> = Vec::new();
    for c in it: s.chars()
        invariant
            v@ == it.seq().take(it.index() as int),
    {
        v.push(c);
    }
    v
}

/// A string made of the characters `v[from..to]`.
pub fn string_from_range(v: &Vec<char>, from: usize, to: usize) -> (s: String)
    requires
        from <= to <= v@.len(),
    ensures
        s@ == v@.subrange(from as int, to as int),
{
    let mut s = String::new();
    let mut i: usize = from;
    while i < to
        invariant
            from <= i <= to <= v@.len(),
            s@ == v@.subrange(from as int, i as int),
        decreases to - i,
    {
        push_char(&mut s, v[i]);
        assert(v@.subrange(from as int, i + 1) == v@.subrange(from as int, i as int).push(
            v@[i as int],
        ));
        i = i + 1;
    }
    s
}

/// A string made of the characters of `v`.
pub fn string_of(v: &Vec<char>) -> (s: String)
    ensures
        s@ == v@,
{
    let s = string_from_range(v, 0, v.len());
    assert(v@.subrange(0, v@.len() as int) == v@);
    s
}

//------------------------------------------------------------------------------
// Decimal numbers
//------------------------------------------------------------------------------
pub open spec fn digit_char(d: nat) -> char {
    (('0' as u32) + d) as char
}

/// Decimal notation of `n`, without leading zeros.
pub open spec fn decimal(n: nat) -> Seq<char>
    decreases n,
{
    if n < 10 {
        seq![digit_char(n)]
    } else {
        decimal(n / 10).push(digit_char(n % 10))
    }
}

/// Decimal notation of a number (as `u64::to_string`).
pub fn decimal_string(n: u64) -> (s: String)
    ensures
        s@ == decimal(n as nat),
    decreases n,
{
    if n < 10 {
        let mut s = String::new();
        push_char(&mut s, char_of_digit(n));
        s
    } else {
        let mut s = decimal_string(n / 10);
        push_char(&mut s, char_of_digit(n % 10));
        s
    }
}

fn char_of_digit(d: u64) -> (c: char)
    requires
        d < 10,
    ensures
        c == digit_char(d as nat),
{
    let c = if d == 0 {
        '0'
    } else if d == 1 {
        '1'
    } else if d == 2 {
        '2'
    } else if d == 3 {
        '3'
    } else if d == 4 {
        '4'
    } else if d == 5 {
        '5'
    } else if d == 6 {
        '6'
    } else if d == 7 {
        '7'
    } else if d == 8 {
        '8'
    } else {
        '9'
    };
    c
}

} // verus!

verus! {

//------------------------------------------------------------------------------
// Whitespace
//------------------------------------------------------------------------------
/// `s` without its leading whitespace.
pub open spec fn trim_start(s: Seq<char>) -> Seq<char>
    decreases s.len(),
{
    if s.len() > 0 && is_ws(s[0]) {
        trim_start(s.drop_first())
    } else {
        s
    }
}

/// `s` without its trailing whitespace.
pub open spec fn trim_end(s: Seq<char>) -> Seq<char>
    decreases s.len(),
{
    if s.len() > 0 && is_ws(s.last()) {
        trim_end(s.drop_last())
    } else {
        s
    }
}

/// `s` without leading and trailing whitespace (as `str::trim`).
pub open spec fn trimmed(s: Seq<char>) -> Seq<char> {
    trim_end(trim_start(s))
}

/// The characters of `s` without leading and trailing whitespace.
pub fn trim_chars(s: &Vec<char>) -> (r: Vec<char>)
    ensures
        r@ == trimmed(s@),
{
    let n = s.len();
    let mut lo: usize = 0;
    assert(s@.skip(0) == s@);
    while lo < n && is_whitespace(s[lo])
        invariant
            n == s@.len(),
            lo <= n,
            trim_start(s@) == trim_start(s@.skip(lo as int)),
        decreases n - lo,
    {
        assert(s@.skip(lo as int).drop_first() == s@.skip(lo + 1));
        lo = lo + 1;
    }
    let ghost front = s@.skip(lo as int);
    assert(trim_start(s@) == front);
    let mut hi: usize = n;
    while hi > lo && is_whitespace(s[hi - 1])
        invariant
            n == s@.len(),
            lo <= hi <= n,
            front == s@.skip(lo as int),
            trim_end(front) == trim_end(s@.subrange(lo as int, hi as int)),
        decreases hi - lo,
    {
        assert(s@.subrange(lo as int, hi as int).drop_last() == s@.subrange(lo as int, hi - 1));
        hi = hi - 1;
    }
    assert(front == s@.subrange(lo as int, n as int));
    let mut r: Vec<char> = Vec::new();
    let mut i: usize = lo;
    while i < hi
        invariant
            n == s@.len(),
            lo <= i <= hi <= n,
            r@ == s@.subrange(lo as int, i as int),
        decreases hi - i,
    {
        r.push(s[i]);
        assert(s@.subrange(lo as int, i + 1) == s@.subrange(lo as int, i as int).push(s@[i as int]));
        i = i + 1;
    }
    r
}

/// State of a left-to-right split at whitespace: the words closed so far and
/// the word being read.
pub open spec fn split_ws_step(st: (Seq<Seq<char>>, Seq<char>), c: char) -> (
    Seq<Seq<char>>,
    Seq<char>,
) {
    if is_ws(c) {
        if st.1.len() > 0 {
            (st.0.push(st.1), Seq::empty())
        } else {
            (st.0, Seq::empty())
        }
    } else {
        (st.0, st.1.push(c))
    }
}

pub open spec fn split_ws_state(s: Seq<char>) -> (Seq<Seq<char>>, Seq<char>)
    decreases s.len(),
{
    if s.len() == 0 {
        (Seq::empty(), Seq::empty())
    } else {
        split_ws_step(split_ws_state(s.drop_last()), s.last())
    }
}

/// Reading a run without whitespace adds it to the word being read.
pub proof fn lemma_split_ws_run(x: Seq<char>, y: Seq<char>)
    requires
        forall|i: int| 0 <= i < y.len() ==> !is_ws(#[trigger] y[i]),
    ensures
        split_ws_state(x + y) == (split_ws_state(x).0, split_ws_state(x).1 + y),
    decreases y.len(),
{
    if y.len() == 0 {
        assert(x + y =~= x);
        assert(split_ws_state(x).1 + y =~= split_ws_state(x).1);
    } else {
        let y1 = y.drop_last();
        lemma_split_ws_run(x, y1);
        assert((x + y).drop_last() =~= x + y1);
        assert((x + y).last() == y.last());
        assert(split_ws_state(x).1 + y1 + seq![y.last()] =~= split_ws_state(x).1 + y);
        assert((split_ws_state(x).1 + y1).push(y.last()) =~= split_ws_state(x).1 + y);
    }
}

/// A text without whitespace is one word (none when empty), and two such
/// texts with a space between are two words.
pub proof fn law_words(a: Seq<char>, b: Seq<char>)
    requires
        forall|i: int| 0 <= i < a.len() ==> !is_ws(#[trigger] a[i]),
        forall|i: int| 0 <= i < b.len() ==> !is_ws(#[trigger] b[i]),
    ensures
        a.len() > 0 ==> words(a) == seq![a],
        a.len() == 0 ==> words(a) == Seq::<Seq<char>>::empty(),
        a.len() > 0 && b.len() > 0 ==> words(a + seq![' '] + b) == seq![a, b],
{
    let e = Seq::<char>::empty();
    lemma_split_ws_run(e, a);
    assert(e + a =~= a);
    assert(split_ws_state(e) == (Seq::<Seq<char>>::empty(), e));
    assert(e + a =~= a);
    if a.len() > 0 && b.len() > 0 {
        let x = a + seq![' '];
        assert(x.drop_last() =~= a);
        assert(x.last() == ' ');
        assert(is_ws(' ')) by {
            assert((' ' as u32) == 0x20);
        }
        assert(split_ws_state(x) == (seq![a], e));
        lemma_split_ws_run(x, b);
        assert(e + b =~= b);
    }
}

/// The maximal runs of non-whitespace characters of `s`, in order (as
/// `str::split_whitespace`).
pub open spec fn words(s: Seq<char>) -> Seq<Seq<char>> {
    let st = split_ws_state(s);
    if st.1.len() > 0 {
        st.0.push(st.1)
    } else {
        st.0
    }
}

/// The views of a vector of strings.
pub open spec fn views(v: Seq<String>) -> Seq<Seq<char>> {
    v.map_values(|s: String| s@)
}

/// The whitespace-separated words of `s`.
pub fn split_whitespace(s: &Vec<char>) -> (r: Vec<String>)
    ensures
        views(r@) == words(s@),
{
    let mut done: Vec<String> = Vec::new();
    let mut cur: Vec<char> = Vec::new();
    let mut i: usize = 0;
    while i < s.len()
        invariant
            i <= s@.len(),
            split_ws_state(s@.take(i as int)) == (views(done@), cur@),
        decreases s@.len() - i,
    {
        let c = s[i];
        assert(s@.take(i + 1).drop_last() == s@.take(i as int));
        if is_whitespace(c) {
            if cur.len() > 0 {
                let w = string_of(&cur);
                done.push(w);
                cur = Vec::new();
            }
        } else {
            cur.push(c);
        }
        assert(views(done@) == split_ws_state(s@.take(i + 1)).0);
        i = i + 1;
    }
    assert(s@.take(s@.len() as int) == s@);
    if cur.len() > 0 {
        let w = string_of(&cur);
        done.push(w);
    }
    done
}

} // verus!

verus! {

//------------------------------------------------------------------------------
// Joining
//------------------------------------------------------------------------------
/// The items of `list` with `sep` between each two neighbours.
pub open spec fn join_seqs(list: Seq<Seq<char>>, sep: Seq<char>) -> Seq<char>
    decreases list.len(),
{
    if list.len() == 0 {
        Seq::empty()
    } else if list.len() == 1 {
        list[0]
    } else {
        join_seqs(list.drop_last(), sep) + sep + list.last()
    }
}

/// Joins strings with a separator (as `[String]::join`).
pub fn join_strings(v: &Vec<String>, sep: &str) -> (r: String)
    ensures
        r@ == join_seqs(views(v@), sep@),
{
    let mut r = String::new();
    let mut i: usize = 0;
    while i < v.len()
        invariant
            i <= v@.len(),
            r@ == join_seqs(views(v@).take(i as int), sep@),
        decreases v@.len() - i,
    {
        assert(views(v@).take(i + 1).drop_last() == views(v@).take(i as int));
        if i > 0 {
            push_str(&mut r, sep);
        }
        push_str(&mut r, v[i].as_str());
        i = i + 1;
    }
    assert(views(v@).take(v@.len() as int) == views(v@));
    r
}

} // verus!

verus! {

//------------------------------------------------------------------------------
// Ordering of text
//------------------------------------------------------------------------------
/// Lexicographic order on characters, by code point (the order of `str`,
/// whose byte order follows the code points).
pub open spec fn text_le(a: Seq<char>, b: Seq<char>) -> bool
    decreases a.len(),
{
    if a.len() == 0 {
        true
    } else if b.len() == 0 {
        false
    } else if a[0] != b[0] {
        (a[0] as u32) < (b[0] as u32)
    } else {
        text_le(a.drop_first(), b.drop_first())
    }
}

/// The views of `v` are in ascending order.
pub open spec fn sorted_texts(v: Seq<Seq<char>>) -> bool {
    forall|i: int, j: int| 0 <= i < j < v.len() ==> text_le(#[trigger] v[i], #[trigger] v[j])
}

} // verus!

verus! {

/// The view of an optional string.
pub open spec fn opt_view(o: Option<String>) -> Option<Seq<char>> {
    match o {
        Some(s) => Some(s@),
        None => None,
    }
}

} // verus!

verus! {

/// Whether two strings hold the same characters.
pub fn text_eq(a: &str, b: &str) -> (r: bool)
    ensures
        r == (a@ == b@),
{
    let x = chars_of(a);
    let y = chars_of(b);
    if x.len() != y.len() {
        return false;
    }
    let mut i: usize = 0;
    while i < x.len()
        invariant
            x@ == a@,
            y@ == b@,
            x@.len() == y@.len(),
            i <= x@.len(),
            forall|k: int| 0 <= k < i ==> x@[k] == y@[k],
        decreases x@.len() - i,
    {
        if x[i] != y[i] {
            assert(a@[i as int] != b@[i as int]);
            return false;
        }
        i = i + 1;
    }
    assert(x@ =~= y@);
    true
}

} // verus!

verus! {

//------------------------------------------------------------------------------
// Finding characters
//------------------------------------------------------------------------------
/// The first position in `lo..hi` that holds `c`.
pub open spec fn first_in(s: Seq<char>, lo: int, hi: int, c: char) -> Option<int>
    decreases hi - lo,
{
    if lo >= hi {
        None
    } else if s[lo] == c {
        Some(lo)
    } else {
        first_in(s, lo + 1, hi, c)
    }
}

/// The first `c` from `lo` on is at `k` when `k` holds it and nothing
/// before it does.
pub proof fn lemma_first_in_is(s: Seq<char>, lo: int, hi: int, c: char, k: int)
    requires
        lo <= k < hi,
        s[k] == c,
        forall|j: int| lo <= j < k ==> s[j] != c,
    ensures
        first_in(s, lo, hi, c) == Some(k),
    decreases k - lo,
{
    if lo < k {
        lemma_first_in_is(s, lo + 1, hi, c, k);
    }
}

/// No `c` from `lo` on: `first_in` finds none.
pub proof fn lemma_first_in_none(s: Seq<char>, lo: int, hi: int, c: char)
    requires
        forall|j: int| lo <= j < hi ==> s[j] != c,
    ensures
        first_in(s, lo, hi, c) is None,
    decreases hi - lo,
{
    if lo < hi {
        lemma_first_in_none(s, lo + 1, hi, c);
    }
}

/// The first position `p` in `lo..hi` where `a` at `p` and `b` at `p + 1`
/// both lie before `hi`.
pub open spec fn first_pair_in(s: Seq<char>, lo: int, hi: int, a: char, b: char) -> Option<int>
    decreases hi - lo,
{
    if lo + 1 >= hi {
        None
    } else if s[lo] == a && s[lo + 1] == b {
        Some(lo)
    } else {
        first_pair_in(s, lo + 1, hi, a, b)
    }
}

pub proof fn lemma_first_in_bounds(s: Seq<char>, lo: int, hi: int, c: char)
    ensures
        first_in(s, lo, hi, c) matches Some(p) ==> lo <= p < hi && s[p] == c,
    decreases hi - lo,
{
    if lo < hi && s[lo] != c {
        lemma_first_in_bounds(s, lo + 1, hi, c);
    }
}

pub proof fn lemma_first_pair_in_bounds(s: Seq<char>, lo: int, hi: int, a: char, b: char)
    ensures
        first_pair_in(s, lo, hi, a, b) matches Some(p) ==> lo <= p && p + 1 < hi && s[p] == a
            && s[p + 1] == b,
    decreases hi - lo,
{
    if lo + 1 < hi && !(s[lo] == a && s[lo + 1] == b) {
        lemma_first_pair_in_bounds(s, lo + 1, hi, a, b);
    }
}

/// The first position in `lo..hi` of `v` that holds `c`.
pub fn find_char(v: &Vec<char>, lo: usize, hi: usize, c: char) -> (r: Option<usize>)
    requires
        hi <= v@.len(),
    ensures
        r matches Some(p) ==> first_in(v@, lo as int, hi as int, c) == Some(p as int),
        r is None ==> first_in(v@, lo as int, hi as int, c) is None,
{
    let mut i = lo;
    while i < hi
        invariant
            lo <= i,
            hi <= v@.len(),
            first_in(v@, lo as int, hi as int, c) == first_in(v@, i as int, hi as int, c),
        decreases hi - i,
    {
        if v[i] == c {
            return Some(i);
        }
        i = i + 1;
    }
    None
}

/// The first position `p` in `lo..hi` of `v` with `a` at `p` and `b` after it.
pub fn find_pair(v: &Vec<char>, lo: usize, hi: usize, a: char, b: char) -> (r: Option<usize>)
    requires
        hi <= v@.len(),
    ensures
        r matches Some(p) ==> first_pair_in(v@, lo as int, hi as int, a, b) == Some(p as int),
        r is None ==> first_pair_in(v@, lo as int, hi as int, a, b) is None,
{
    let mut i = lo;
    while i < hi && i + 1 < hi
        invariant
            lo <= i,
            hi <= v@.len(),
            first_pair_in(v@, lo as int, hi as int, a, b) == first_pair_in(
                v@,
                i as int,
                hi as int,
                a,
                b,
            ),
        decreases hi - i,
    {
        if v[i] == a && v[i + 1] == b {
            return Some(i);
        }
        i = i + 1;
    }
    None
}

} // verus!

verus! {

/// UTF-8 bytes of characters.
pub open spec fn utf8(s: Seq<char>) -> Seq<u8> {
    vstd::utf8::encode_utf8(s)
}

pub proof fn lemma_utf8_nonempty(s: Seq<char>)
    requires
        s.len() > 0,
    ensures
        utf8(s).len() > 0,
{
}

/// The words of a text are never empty.
pub proof fn lemma_words_nonempty(s: Seq<char>)
    ensures
        forall|k: int| 0 <= k < words(s).len() ==> #[trigger] words(s)[k].len() > 0,
{
    lemma_split_state_nonempty(s);
}

proof fn lemma_split_state_nonempty(s: Seq<char>)
    ensures
        forall|k: int|
            0 <= k < split_ws_state(s).0.len() ==> #[trigger] split_ws_state(s).0[k].len() > 0,
    decreases s.len(),
{
    if s.len() > 0 {
        lemma_split_state_nonempty(s.drop_last());
        let st = split_ws_state(s.drop_last());
        assert(split_ws_state(s) == split_ws_step(st, s.last()));
        if is_ws(s.last()) && st.1.len() > 0 {
            assert forall|k: int| 0 <= k < st.0.push(st.1).len() implies #[trigger] st.0.push(
                st.1,
            )[k].len() > 0 by {
                if k < st.0.len() {
                    assert(st.0.push(st.1)[k] == st.0[k]);
                }
            }
        }
    }
}

//------------------------------------------------------------------------------
// Comparing text
//------------------------------------------------------------------------------
/// Three-way result of a comparison.
#[derive(Clone, Copy, Debug, PartialEq, Eq, Structural)]
pub enum Order {
    Less,
    Equal,
    Greater,
}

impl Order {
    /// The opposite order.
    pub fn reverse(self) -> (r: Order)
        ensures
            r == reverse_order(self),
    {
        match self {
            Order::Less => Order::Greater,
            Order::Equal => Order::Equal,
            Order::Greater => Order::Less,
        }
    }
}

pub open spec fn reverse_order(o: Order) -> Order {
    match o {
        Order::Less => Order::Greater,
        Order::Equal => Order::Equal,
        Order::Greater => Order::Less,
    }
}

/// Lexicographic comparison by code point from position `i` on.
pub open spec fn text_order_from(a: Seq<char>, b: Seq<char>, i: int) -> Order
    decreases a.len() - i,
{
    if i < 0 || (i >= a.len() && i >= b.len()) {
        Order::Equal
    } else if i >= a.len() {
        Order::Less
    } else if i >= b.len() {
        Order::Greater
    } else if (a[i] as u32) < (b[i] as u32) {
        Order::Less
    } else if (a[i] as u32) > (b[i] as u32) {
        Order::Greater
    } else {
        text_order_from(a, b, i + 1)
    }
}

/// The order of two texts (that of `str`, whose bytes follow code points).
pub open spec fn text_order(a: Seq<char>, b: Seq<char>) -> Order {
    text_order_from(a, b, 0)
}

/// Compares two texts.
pub fn compare_text(a: &str, b: &str) -> (r: Order)
    ensures
        r == text_order(a@, b@),
{
    let x = chars_of(a);
    let y = chars_of(b);
    let mut i: usize = 0;
    loop
        invariant
            x@ == a@,
            y@ == b@,
            i <= x@.len() || i <= y@.len(),
            text_order(x@, y@) == text_order_from(x@, y@, i as int),
        decreases x@.len() + y@.len() - 2 * i,
    {
        if i >= x.len() && i >= y.len() {
            return Order::Equal;
        } else if i >= x.len() {
            return Order::Less;
        } else if i >= y.len() {
            return Order::Greater;
        } else if (x[i] as u32) < (y[i] as u32) {
            return Order::Less;
        } else if (x[i] as u32) > (y[i] as u32) {
            return Order::Greater;
        }
        i = i + 1;
    }
}

/// Lexicographic comparison of lists of texts from position `i` on.
pub open spec fn list_order_from(a: Seq<Seq<char>>, b: Seq<Seq<char>>, i: int) -> Order
    decreases a.len() - i,
{
    if i < 0 || (i >= a.len() && i >= b.len()) {
        Order::Equal
    } else if i >= a.len() {
        Order::Less
    } else if i >= b.len() {
        Order::Greater
    } else if text_order(a[i], b[i]) != Order::Equal {
        text_order(a[i], b[i])
    } else {
        list_order_from(a, b, i + 1)
    }
}

/// The order of two lists of texts (that of slices of `String`).
pub open spec fn list_order(a: Seq<Seq<char>>, b: Seq<Seq<char>>) -> Order {
    list_order_from(a, b, 0)
}

/// Compares two lists of strings.
pub fn compare_lists(a: &Vec<String>, b: &Vec<String>) -> (r: Order)
    ensures
        r == list_order(views(a@), views(b@)),
{
    let mut i: usize = 0;
    loop
        invariant
            i <= a@.len() || i <= b@.len(),
            list_order(views(a@), views(b@)) == list_order_from(views(a@), views(b@), i as int),
        decreases a@.len() + b@.len() - 2 * i,
    {
        if i >= a.len() && i >= b.len() {
            return Order::Equal;
        } else if i >= a.len() {
            return Order::Less;
        } else if i >= b.len() {
            return Order::Greater;
        }
        let c = compare_text(a[i].as_str(), b[i].as_str());
        if c != Order::Equal {
            return c;
        }
        i = i + 1;
    }
}

proof fn lemma_text_order_common(a: Seq<char>, b: Seq<char>, i: int, k: int)
    requires
        0 <= i <= k <= a.len(),
        k <= b.len(),
        forall|j: int| i <= j < k ==> a[j] == b[j],
    ensures
        text_order_from(a, b, i) == text_order_from(a, b, k),
    decreases k - i,
{
    if i < k {
        lemma_text_order_common(a, b, i + 1, k);
    }
}

/// The text order is that of `str`: after a common beginning, the first
/// character that differs decides by its code point, and a text comes
/// before every longer text that begins with it.
pub proof fn law_text_order(p: Seq<char>, x: char, y: char, a: Seq<char>, b: Seq<char>)
    ensures
        text_order(p, p) == Order::Equal,
        a.len() > 0 ==> text_order(p, p + a) == Order::Less && text_order(p + a, p) == Order::Greater,
        (x as u32) < (y as u32) ==> text_order(p + seq![x] + a, p + seq![y] + b) == Order::Less,
        (x as u32) > (y as u32) ==> text_order(p + seq![x] + a, p + seq![y] + b) == Order::Greater,
{
    let n = p.len() as int;
    lemma_text_order_common(p, p, 0, n);
    let pa = p + a;
    assert forall|j: int| 0 <= j < n implies p[j] == pa[j] by {}
    lemma_text_order_common(p, pa, 0, n);
    lemma_text_order_common(pa, p, 0, n);
    let s1 = p + seq![x] + a;
    let s2 = p + seq![y] + b;
    assert forall|j: int| 0 <= j < n implies s1[j] == s2[j] by {
        assert(s1[j] == p[j] && s2[j] == p[j]);
    }
    lemma_text_order_common(s1, s2, 0, n);
    assert(s1[n] == x && s2[n] == y);
}

/// Comparing texts the other way round gives the reverse order.
pub proof fn lemma_text_order_swap(a: Seq<char>, b: Seq<char>, i: int)
    ensures
        text_order_from(b, a, i) == reverse_order(text_order_from(a, b, i)),
    decreases a.len() + b.len() - 2 * i,
{
    if !(i < 0 || (i >= a.len() && i >= b.len())) && i < a.len() && i < b.len() {
        if (a[i] as u32) == (b[i] as u32) {
            lemma_text_order_swap(a, b, i + 1);
        }
    }
}

/// Comparing lists of texts the other way round gives the reverse order.
pub proof fn lemma_list_order_swap(a: Seq<Seq<char>>, b: Seq<Seq<char>>, i: int)
    ensures
        list_order_from(b, a, i) == reverse_order(list_order_from(a, b, i)),
    decreases a.len() + b.len() - 2 * i,
{
    if !(i < 0 || (i >= a.len() && i >= b.len())) && i < a.len() && i < b.len() {
        lemma_text_order_swap(a[i], b[i], 0);
        if text_order(a[i], b[i]) == Order::Equal {
            lemma_list_order_swap(a, b, i + 1);
        }
    }
}

/// Three-way comparison of numbers.
pub open spec fn int_order(a: int, b: int) -> Order {
    if a < b {
        Order::Less
    } else if a > b {
        Order::Greater
    } else {
        Order::Equal
    }
}

pub fn compare_i64(a: i64, b: i64) -> (r: Order)
    ensures
        r == int_order(a as int, b as int),
{
    if a < b {
        Order::Less
    } else if a > b {
        Order::Greater
    } else {
        Order::Equal
    }
}

} // verus!
