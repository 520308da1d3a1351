//! Character-level text handling shared by the rest of the library:
//! whitespace trimming, searching, prefixes, ASCII case folding and the
//! ordering that `str`'s `Ord` gives (code point by code point).
use vstd::prelude::*;

verus! {

/// Unicode `White_Space`, the set that `char::is_whitespace` answers for.
pub open spec fn is_white(c: char) -> bool {
    let n = c as u32;
    ||| 0x9 <= n <= 0xD
    ||| n == 0x20
    ||| n == 0x85
    ||| n == 0xA0
    ||| n == 0x1680
    ||| 0x2000 <= n <= 0x200A
    ||| n == 0x2028
    ||| n == 0x2029
    ||| n == 0x202F
    ||| n == 0x205F
    ||| n == 0x3000
}

/// A set of characters that trimming removes.
#[derive(Clone, Copy, Debug, PartialEq, Eq)]
pub enum Trim {
    Whitespace,
    Exactly(char),
}

pub open spec fn trims(t: Trim, c: char) -> bool {
    match t {
        Trim::Whitespace => is_white(c),
        Trim::Exactly(x) => c == x,
    }
}

/// `s` with every leading character of the set removed.
pub open spec fn trim_start(s: Seq<char>, t: Trim) -> Seq<char>
    decreases s.len(),
{
    if s.len() > 0 && trims(t, s[0]) {
        trim_start(s.drop_first(), t)
    } else {
        s
    }
}

/// `s` with every trailing character of the set removed.
pub open spec fn trim_end(s: Seq<char>, t: Trim) -> Seq<char>
    decreases s.len(),
{
    if s.len() > 0 && trims(t, s.last()) {
        trim_end(s.drop_last(), t)
    } else {
        s
    }
}

/// `s` with the set removed at both ends (`str::trim`, `str::trim_matches`).
pub open spec fn trim_both(s: Seq<char>, t: Trim) -> Seq<char> {
    trim_end(trim_start(s, t), t)
}

/// The index of the first `c` in `s`.
pub open spec fn first_index_of(s: Seq<char>, c: char) -> Option<int>
    decreases s.len(),
{
    if s.len() == 0 {
        None
    } else if s[0] == c {
        Some(0)
    } else {
        match first_index_of(s.drop_first(), c) {
            Some(i) => Some(i + 1),
            None => None,
        }
    }
}

/// `str::split_once` with a single character as the separator.
pub open spec fn split_once(s: Seq<char>, c: char) -> Option<(Seq<char>, Seq<char>)> {
    match first_index_of(s, c) {
        Some(i) => Some((s.take(i), s.skip(i + 1))),
        None => None,
    }
}

pub open spec fn starts_with(s: Seq<char>, p: Seq<char>) -> bool {
    p.len() <= s.len() && s.take(p.len() as int) == p
}

pub open spec fn ends_with(s: Seq<char>, p: Seq<char>) -> bool {
    p.len() <= s.len() && s.skip(s.len() - p.len()) == p
}

/// `char::to_ascii_lowercase`.
pub open spec fn ascii_lower(c: char) -> char {
    if 'A' <= c <= 'Z' {
        ((c as u32) + 32) as char
    } else {
        c
    }
}

/// `str::eq_ignore_ascii_case`.
pub open spec fn eq_ignore_ascii_case(a: Seq<char>, b: Seq<char>) -> bool {
    &&& a.len() == b.len()
    &&& forall|i: int| 0 <= i < a.len() ==> ascii_lower(#[trigger] a[i]) == ascii_lower(b[i])
}

/// The order of `str` values: code point by code point, a proper prefix
/// first. (UTF-8 keeps code point order, so this is the byte order too.)
pub open spec fn seq_lt(a: Seq<char>, b: Seq<char>) -> bool
    decreases a.len(),
{
    if b.len() == 0 {
        false
    } else if a.len() == 0 {
        true
    } else if a[0] != b[0] {
        (a[0] as u32) < (b[0] as u32)
    } else {
        seq_lt(a.drop_first(), b.drop_first())
    }
}

pub proof fn lemma_seq_lt_irreflexive(a: Seq<char>)
    ensures
        !seq_lt(a, a),
    decreases a.len(),
{
    if a.len() > 0 {
        lemma_seq_lt_irreflexive(a.drop_first());
    }
}

pub proof fn lemma_seq_lt_transitive(a: Seq<char>, b: Seq<char>, c: Seq<char>)
    requires
        seq_lt(a, b),
        seq_lt(b, c),
    ensures
        seq_lt(a, c),
    decreases a.len(),
{
    if a.len() > 0 && b.len() > 0 && c.len() > 0 {
        if a[0] == b[0] && b[0] == c[0] {
            lemma_seq_lt_transitive(a.drop_first(), b.drop_first(), c.drop_first());
        }
    }
}

/// The characters of a string, one by one.
pub fn chars_of(s: &str) -> (v: Vec<char>)
    ensures
        v@ == s@,
{
    let mut v: Vec<char> = Vec::new();
    for c in it: s.chars()
        invariant
            v@ == it.seq().take(it.index() as int),
            it.seq() == s@,
    {
        v.push(c);
    }
    v
}

/// Appends one character (`String::push`).
#[verifier::external_body]
pub(crate) fn push_char(s: &mut String, c: char)
    ensures
        final(s)@ == old(s)@.push(c),
{
    s.push(c);
}

/// The string made of `v[lo..hi]`.
pub fn string_from(v: &Vec<char>, lo: usize, hi: usize) -> (s: String)
    requires
        lo <= hi <= v.len(),
    ensures
        s@ == v@.subrange(lo as int, hi as int),
{
    let mut s = String::new();
    let mut i = lo;
    while i < hi
        invariant
            lo <= i <= hi <= v.len(),
            s@ == v@.subrange(lo as int, i as int),
        decreases hi - i,
    {
        push_char(&mut s, v[i]);
        assert(v@.subrange(lo as int, i + 1) == v@.subrange(lo as int, i as int).push(v@[i as int]));
        i = i + 1;
    }
    s
}

/// `a` followed by `b`.
pub fn join_str(a: &str, b: &str) -> (s: String)
    ensures
        s@ == a@ + b@,
{
    let mut s = a.to_owned();
    s.append(b);
    s
}

pub fn is_white_char(c: char) -> (b: bool)
    ensures
        b == is_white(c),
{
    let n = c as u32;
    (0x9 <= n && n <= 0xD) || n == 0x20 || n == 0x85 || n == 0xA0 || n == 0x1680 || (0x2000 <= n
        && n <= 0x200A) || n == 0x2028 || n == 0x2029 || n == 0x202F || n == 0x205F || n == 0x3000
}

pub fn trims_char(t: Trim, c: char) -> (b: bool)
    ensures
        b == trims(t, c),
{
    match t {
        Trim::Whitespace => is_white_char(c),
        Trim::Exactly(x) => c == x,
    }
}

proof fn lemma_trim_start_step(s: Seq<char>, t: Trim, i: int)
    requires
        0 <= i < s.len(),
        trims(t, s[i]),
    ensures
        trim_start(s.skip(i), t) == trim_start(s.skip(i + 1), t),
{
    assert(s.skip(i).drop_first() == s.skip(i + 1));
}

proof fn lemma_trim_end_step(s: Seq<char>, t: Trim, j: int)
    requires
        0 < j <= s.len(),
        trims(t, s[j - 1]),
    ensures
        trim_end(s.take(j), t) == trim_end(s.take(j - 1), t),
{
    assert(s.take(j).drop_last() == s.take(j - 1));
}

/// Bounds of `v[lo..hi]` once the set is trimmed from both ends of it.
pub fn trim_range(v: &Vec<char>, lo: usize, hi: usize, t: Trim) -> (r: (usize, usize))
    requires
        lo <= hi <= v.len(),
    ensures
        lo <= r.0 <= r.1 <= hi,
        v@.subrange(r.0 as int, r.1 as int) == trim_both(v@.subrange(lo as int, hi as int), t),
{
    let ghost s = v@.subrange(lo as int, hi as int);
    let mut i = lo;
    assert(s.skip(0) == s);
    while i < hi && trims_char(t, v[i])
        invariant
            lo <= i <= hi <= v.len(),
            s == v@.subrange(lo as int, hi as int),
            trim_start(s, t) == trim_start(s.skip(i - lo), t),
        decreases hi - i,
    {
        proof {
            lemma_trim_start_step(s, t, i - lo);
        }
        i = i + 1;
    }
    let ghost u = s.skip(i - lo);
    assert(trim_start(u, t) == u);
    assert(u == v@.subrange(i as int, hi as int));
    let mut j = hi;
    assert(u.take(u.len() as int) == u);
    while j > i && trims_char(t, v[j - 1])
        invariant
            lo <= i <= j <= hi <= v.len(),
            u == v@.subrange(i as int, hi as int),
            trim_end(u, t) == trim_end(u.take(j - i), t),
        decreases j - i,
    {
        proof {
            lemma_trim_end_step(u, t, j - i);
        }
        j = j - 1;
    }
    assert(trim_end(u.take(j - i), t) == u.take(j - i));
    assert(u.take(j - i) == v@.subrange(i as int, j as int));
    (i, j)
}

/// `str::trim_end_matches` with one character.
pub fn trim_end_str(s: &str, t: Trim) -> (r: String)
    ensures
        r@ == trim_end(s@, t),
{
    let v = chars_of(s);
    let mut j = v.len();
    assert(v@.take(v@.len() as int) == v@);
    while j > 0 && trims_char(t, v[j - 1])
        invariant
            j <= v.len(),
            v@ == s@,
            trim_end(s@, t) == trim_end(s@.take(j as int), t),
        decreases j,
    {
        proof {
            lemma_trim_end_step(s@, t, j as int);
        }
        j = j - 1;
    }
    assert(trim_end(s@.take(j as int), t) == s@.take(j as int));
    assert(v@.subrange(0, j as int) == s@.take(j as int));
    string_from(&v, 0, j)
}

/// `str::trim` and `str::trim_matches` with one character.
pub fn trim_str(s: &str, t: Trim) -> (r: String)
    ensures
        r@ == trim_both(s@, t),
{
    let v = chars_of(s);
    let (i, j) = trim_range(&v, 0, v.len(), t);
    assert(v@.subrange(0, v@.len() as int) == v@);
    string_from(&v, i, j)
}

/// Index of the first `c` in `v[lo..]`, relative to `lo`.
pub fn find_char(v: &Vec<char>, lo: usize, c: char) -> (r: Option<usize>)
    requires
        lo <= v.len(),
    ensures
        match r {
            Some(i) => first_index_of(v@.skip(lo as int), c) == Some(i as int),
            None => first_index_of(v@.skip(lo as int), c) is None,
        },
{
    let mut i = lo;
    while i < v.len()
        invariant
            lo <= i <= v.len(),
            forall|k: int| lo <= k < i ==> v@[k] != c,
        decreases v.len() - i,
    {
        if v[i] == c {
            proof {
                lemma_first_index_at(v@.skip(lo as int), c, i - lo);
            }
            return Some(i - lo);
        }
        i = i + 1;
    }
    proof {
        lemma_first_index_none(v@.skip(lo as int), c);
    }
    None
}

pub proof fn lemma_first_index_at(s: Seq<char>, c: char, i: int)
    requires
        0 <= i < s.len(),
        s[i] == c,
        forall|k: int| 0 <= k < i ==> s[k] != c,
    ensures
        first_index_of(s, c) == Some(i),
    decreases i,
{
    if i > 0 {
        lemma_first_index_at(s.drop_first(), c, i - 1);
    }
}

pub proof fn lemma_first_index_none(s: Seq<char>, c: char)
    requires
        forall|k: int| 0 <= k < s.len() ==> s[k] != c,
    ensures
        first_index_of(s, c) is None,
    decreases s.len(),
{
    if s.len() > 0 {
        lemma_first_index_none(s.drop_first(), c);
    }
}

pub proof fn lemma_first_index_facts(s: Seq<char>, c: char)
    ensures
        match first_index_of(s, c) {
            Some(i) => 0 <= i < s.len() && s[i] == c && forall|k: int| 0 <= k < i ==> s[k] != c,
            None => forall|k: int| 0 <= k < s.len() ==> s[k] != c,
        },
    decreases s.len(),
{
    if s.len() > 0 {
        lemma_first_index_facts(s.drop_first(), c);
        if s[0] != c {
            assert forall|k: int| 1 <= k < s.len() implies s[k] == s.drop_first()[k - 1] by {}
        }
    }
}

/// `a` and `b` are equal once ASCII letters are folded to lower case.
pub fn eq_ignore_case(a: &str, b: &str) -> (r: bool)
    ensures
        r == eq_ignore_ascii_case(a@, b@),
{
    let x = chars_of(a);
    let y = chars_of(b);
    if x.len() != y.len() {
        return false;
    }
    let mut i: usize = 0;
    while i < x.len()
        invariant
            x@ == a@,
            y@ == b@,
            x.len() == y.len(),
            0 <= i <= x.len(),
            forall|k: int| 0 <= k < i ==> ascii_lower(#[trigger] x@[k]) == ascii_lower(y@[k]),
        decreases x.len() - i,
    {
        if lower_char(x[i]) != lower_char(y[i]) {
            return false;
        }
        i = i + 1;
    }
    true
}

pub fn lower_char(c: char) -> (r: char)
    ensures
        r == ascii_lower(c),
{
    if 'A' <= c && c <= 'Z' {
        let n = (c as u32) + 32;
        assert(0x61 <= n <= 0x7a);
        char_from_ascii(n)
    } else {
        c
    }
}

/// The character with code `n`, for `n` below 128.
fn char_from_ascii(n: u32) -> (c: char)
    requires
        n < 128,
    ensures
        c == n as char,
{
    let b: u8 = n as u8;
    b as char
}

/// Whether `a` comes strictly before `b` in `str` order.
pub fn str_lt(a: &Vec<char>, b: &Vec<char>) -> (r: bool)
    ensures
        r == seq_lt(a@, b@),
{
    let mut i: usize = 0;
    assert(a@.skip(0) == a@ && b@.skip(0) == b@);
    while i < a.len() && i < b.len() && a[i] == b[i]
        invariant
            0 <= i <= a.len(),
            i <= b.len(),
            seq_lt(a@, b@) == seq_lt(a@.skip(i as int), b@.skip(i as int)),
        decreases a.len() - i,
    {
        assert(a@.skip(i as int).drop_first() == a@.skip(i + 1));
        assert(b@.skip(i as int).drop_first() == b@.skip(i + 1));
        i = i + 1;
    }
    if i == b.len() {
        false
    } else if i == a.len() {
        true
    } else {
        assert(a@.skip(i as int)[0] == a@[i as int] && b@.skip(i as int)[0] == b@[i as int]);
        (a[i] as u32) < (b[i] as u32)
    }
}

/// Whether `v[lo..]` begins with `p`.
pub fn starts_with_at(v: &Vec<char>, lo: usize, p: &Vec<char>) -> (r: bool)
    requires
        lo <= v.len(),
    ensures
        r == starts_with(v@.skip(lo as int), p@),
{
    if p.len() > v.len() - lo {
        return false;
    }
    let mut i: usize = 0;
    while i < p.len()
        invariant
            lo <= v.len(),
            p.len() <= v.len() - lo,
            0 <= i <= p.len(),
            forall|k: int| 0 <= k < i ==> v@[lo + k] == p@[k],
        decreases p.len() - i,
    {
        if v[lo + i] != p[i] {
            assert(v@.skip(lo as int).take(p.len() as int)[i as int] != p@[i as int]);
            return false;
        }
        i = i + 1;
    }
    assert(v@.skip(lo as int).take(p.len() as int) =~= p@);
    true
}

/// Whether `v[..hi]` ends with `p`.
pub fn ends_with_at(v: &Vec<char>, hi: usize, p: &Vec<char>) -> (r: bool)
    requires
        hi <= v.len(),
    ensures
        r == ends_with(v@.take(hi as int), p@),
{
    if p.len() > hi {
        return false;
    }
    let lo = hi - p.len();
    let mut i: usize = 0;
    while i < p.len()
        invariant
            hi <= v.len(),
            lo + p.len() == hi,
            0 <= i <= p.len(),
            forall|k: int| 0 <= k < i ==> v@[lo + k] == p@[k],
        decreases p.len() - i,
    {
        if v[lo + i] != p[i] {
            assert(v@.take(hi as int).skip(lo as int)[i as int] != p@[i as int]);
            return false;
        }
        i = i + 1;
    }
    assert(v@.take(hi as int).skip(lo as int) =~= p@);
    true
}

} // verus!
