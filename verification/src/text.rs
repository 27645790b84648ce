//! Character-level string helpers with specifications over `Seq<char>`.
//!
//! Everything the rest of the library says about strings is stated over the
//! character sequences that `String` and `&str` view as; the executable
//! helpers here scan those characters one at a time.

use vstd::prelude::*;
use vstd::string::*;

verus! {

// ---------------------------------------------------------------------------
// Character classes
// ---------------------------------------------------------------------------

/// Unicode `White_Space`, as tested by `char::is_whitespace`.
pub open spec fn is_ws(c: char) -> bool {
    ||| ('\u{9}' <= c && c <= '\u{d}')
    ||| c == ' '
    ||| c == '\u{85}'
    ||| c == '\u{a0}'
    ||| c == '\u{1680}'
    ||| ('\u{2000}' <= c && c <= '\u{200a}')
    ||| c == '\u{2028}'
    ||| c == '\u{2029}'
    ||| c == '\u{202f}'
    ||| c == '\u{205f}'
    ||| c == '\u{3000}'
}

pub open spec fn is_ascii_digit(c: char) -> bool {
    '0' <= c && c <= '9'
}

pub open spec fn is_ascii_upper(c: char) -> bool {
    'A' <= c && c <= 'Z'
}

pub open spec fn is_ascii_alnum(c: char) -> bool {
    ||| is_ascii_digit(c)
    ||| is_ascii_upper(c)
    ||| ('a' <= c && c <= 'z')
}

/// `char::to_ascii_lowercase`.
pub open spec fn lower_char(c: char) -> char {
    if is_ascii_upper(c) {
        ((c as u32) + 32) as char
    } else {
        c
    }
}

/// `str::to_ascii_lowercase`.
pub open spec fn lower(s: Seq<char>) -> Seq<char> {
    s.map_values(|c: char| lower_char(c))
}

pub open spec fn has_ws(s: Seq<char>) -> bool {
    exists|i: int| 0 <= i < s.len() && is_ws(#[trigger] s[i])
}

pub open spec fn all_ws(s: Seq<char>) -> bool {
    forall|i: int| 0 <= i < s.len() ==> is_ws(#[trigger] s[i])
}

// ---------------------------------------------------------------------------
// Substrings
// ---------------------------------------------------------------------------

/// `p` occurs in `s` starting at index `i`.
pub open spec fn occurs_at(s: Seq<char>, p: Seq<char>, i: int) -> bool {
    0 <= i && i + p.len() <= s.len() && s.subrange(i, i + p.len()) == p
}

/// `str::contains` with a string pattern.
pub open spec fn contains_seq(s: Seq<char>, p: Seq<char>) -> bool {
    exists|i: int| occurs_at(s, p, i)
}

/// `i` is the first index at which `c` occurs in `s`.
pub open spec fn first_at(s: Seq<char>, c: char, i: int) -> bool {
    &&& 0 <= i < s.len()
    &&& s[i] == c
    &&& forall|j: int| 0 <= j < i ==> s[j] != c
}

/// `i` is the last index at which `c` occurs in `s`.
pub open spec fn last_at(s: Seq<char>, c: char, i: int) -> bool {
    &&& 0 <= i < s.len()
    &&& s[i] == c
    &&& forall|j: int| i < j < s.len() ==> s[j] != c
}

/// `str::split_once` with a character pattern.
pub open spec fn split_once(s: Seq<char>, c: char) -> Option<(Seq<char>, Seq<char>)> {
    if s.contains(c) {
        let i = choose|i: int| first_at(s, c, i);
        Some((s.take(i), s.skip(i + 1)))
    } else {
        None
    }
}

/// `str::rsplit_once` with a character pattern.
pub open spec fn rsplit_once(s: Seq<char>, c: char) -> Option<(Seq<char>, Seq<char>)> {
    if s.contains(c) {
        let i = choose|i: int| last_at(s, c, i);
        Some((s.take(i), s.skip(i + 1)))
    } else {
        None
    }
}

/// Number of leading whitespace characters.
pub open spec fn lead_ws(s: Seq<char>, k: int) -> bool {
    &&& 0 <= k <= s.len()
    &&& forall|j: int| 0 <= j < k ==> is_ws(#[trigger] s[j])
    &&& (k == s.len() || !is_ws(s[k]))
}

/// Index after the last non-whitespace character.
pub open spec fn trail_ws(s: Seq<char>, k: int) -> bool {
    &&& 0 <= k <= s.len()
    &&& forall|j: int| k <= j < s.len() ==> is_ws(#[trigger] s[j])
    &&& (k == 0 || !is_ws(s[k - 1]))
}

/// `str::trim_start`.
pub open spec fn trim_start(s: Seq<char>) -> Seq<char> {
    s.skip(choose|k: int| lead_ws(s, k))
}

/// `str::trim_end`.
pub open spec fn trim_end(s: Seq<char>) -> Seq<char> {
    s.take(choose|k: int| trail_ws(s, k))
}

/// `str::trim`.
pub open spec fn trim(s: Seq<char>) -> Seq<char> {
    trim_end(trim_start(s))
}

/// Text without whitespace is its own trim.
pub proof fn lemma_trim_no_ws(s: Seq<char>)
    requires
        !has_ws(s),
    ensures
        trim(s) == s,
{
    assert(lead_ws(s, 0));
    let k = choose|k: int| lead_ws(s, k);
    if k > 0 {
        assert(is_ws(s[0]));
    }
    assert(trim_start(s) =~= s);
    assert(trail_ws(s, s.len() as int));
    let m = choose|m: int| trail_ws(s, m);
    if m < s.len() {
        assert(is_ws(s[s.len() - 1]));
    }
    assert(trim_end(s) =~= s);
}

/// `str::replace` with a non-empty pattern: every non-overlapping occurrence,
/// scanning left to right, is replaced.
pub open spec fn replace_all(s: Seq<char>, p: Seq<char>, r: Seq<char>) -> Seq<char>
    decreases s.len(),
{
    if p.len() == 0 || s.len() < p.len() {
        s
    } else if s.take(p.len() as int) == p {
        r + replace_all(s.skip(p.len() as int), p, r)
    } else {
        seq![s[0]] + replace_all(s.skip(1), p, r)
    }
}

/// The first index of `c` in a string that holds it.
pub proof fn lemma_first_index(a: Seq<char>, c: char) -> (i: int)
    requires
        a.contains(c),
    ensures
        first_at(a, c, i),
    decreases a.len(),
{
    if a[0] == c {
        0
    } else {
        let t = a.skip(1);
        let w = choose|w: int| 0 <= w < a.len() && a[w] == c;
        assert(t[w - 1] == c);
        let j = lemma_first_index(t, c);
        assert forall|k: int| 0 <= k < j + 1 implies a[k] != c by {
            if k > 0 {
                assert(a[k] == t[k - 1]);
            }
        }
        j + 1
    }
}

/// Splitting `a`, a separator, then `b` (which holds no separator) splits
/// `a` and adds `b` as the last piece.
pub proof fn lemma_split_append(a: Seq<char>, c: char, b: Seq<char>)
    requires
        !b.contains(c),
    ensures
        split_spec(a + seq![c] + b, c) == split_spec(a, c).push(b),
    decreases a.len(),
{
    let s = a + seq![c] + b;
    if a.contains(c) {
        let i = lemma_first_index(a, c);
        assert(first_at(s, c, i));
        lemma_split_at_first(s, c, i);
        lemma_split_at_first(a, c, i);
        let rest = a.skip(i + 1);
        lemma_split_append(rest, c, b);
        assert(s.take(i) =~= a.take(i));
        assert(s.skip(i + 1) =~= rest + seq![c] + b);
        assert(split_spec(s, c) =~= seq![a.take(i)] + split_spec(rest, c).push(b));
        assert(split_spec(a, c) =~= seq![a.take(i)] + split_spec(rest, c));
    } else {
        let n = a.len() as int;
        assert(first_at(s, c, n));
        lemma_split_at_first(s, c, n);
        assert(s.take(n) =~= a);
        assert(s.skip(n + 1) =~= b);
        lemma_split_none(b, c);
        lemma_split_none(a, c);
        assert(split_spec(s, c) =~= seq![a, b]);
    }
}

/// `str::split` with a character separator.
pub open spec fn split_spec(s: Seq<char>, c: char) -> Seq<Seq<char>>
    decreases s.len(),
{
    if s.contains(c) {
        let i = choose|i: int| first_at(s, c, i);
        if 0 <= i < s.len() {
            seq![s.take(i)] + split_spec(s.skip(i + 1), c)
        } else {
            seq![s]
        }
    } else {
        seq![s]
    }
}

/// Joins pieces with a separator.
pub open spec fn join(pieces: Seq<Seq<char>>, sep: Seq<char>) -> Seq<char>
    decreases pieces.len(),
{
    if pieces.len() == 0 {
        Seq::empty()
    } else if pieces.len() == 1 {
        pieces[0]
    } else {
        join(pieces.drop_last(), sep) + sep + pieces.last()
    }
}

// ---------------------------------------------------------------------------
// Lexicographic order (the order `String`'s `Ord` uses: by code point)
// ---------------------------------------------------------------------------

/// `a` sorts strictly before `b`.
pub open spec fn seq_lt(a: Seq<char>, b: Seq<char>) -> bool
    decreases a.len(),
{
    if a.len() == 0 {
        b.len() > 0
    } else if b.len() == 0 {
        false
    } else if a[0] != b[0] {
        (a[0] as int) < (b[0] as int)
    } else {
        seq_lt(a.drop_first(), b.drop_first())
    }
}

pub proof fn lemma_lt_irreflexive(a: Seq<char>)
    ensures
        !seq_lt(a, a),
    decreases a.len(),
{
    if a.len() > 0 {
        lemma_lt_irreflexive(a.drop_first());
    }
}

pub proof fn lemma_lt_transitive(a: Seq<char>, b: Seq<char>, c: Seq<char>)
    requires
        seq_lt(a, b),
        seq_lt(b, c),
    ensures
        seq_lt(a, c),
    decreases a.len(),
{
    if a.len() > 0 && b.len() > 0 && c.len() > 0 {
        if a[0] == b[0] && b[0] == c[0] {
            lemma_lt_transitive(a.drop_first(), b.drop_first(), c.drop_first());
        }
    }
}

pub proof fn lemma_lt_total(a: Seq<char>, b: Seq<char>)
    ensures
        seq_lt(a, b) || seq_lt(b, a) || a == b,
    decreases a.len(),
{
    if a.len() > 0 && b.len() > 0 {
        if a[0] == b[0] {
            lemma_lt_total(a.drop_first(), b.drop_first());
            if a.drop_first() == b.drop_first() {
                assert(a =~= seq![a[0]] + a.drop_first());
                assert(b =~= seq![b[0]] + b.drop_first());
            }
        }
    } else if a.len() == 0 && b.len() == 0 {
        assert(a =~= b);
    }
}

pub proof fn lemma_lt_asymmetric(a: Seq<char>, b: Seq<char>)
    requires
        seq_lt(a, b),
    ensures
        !seq_lt(b, a),
{
    if seq_lt(b, a) {
        lemma_lt_transitive(a, b, a);
        lemma_lt_irreflexive(a);
    }
}

/// Result of a three-way comparison.
#[derive(Clone, Copy, PartialEq, Eq, Structural, Debug)]
pub enum Cmp {
    Less,
    Equal,
    Greater,
}

/// Three-way comparison of two strings in code-point order.
pub fn compare_str(a: &str, b: &str) -> (r: Cmp)
    ensures
        r == Cmp::Less <==> seq_lt(a@, b@),
        r == Cmp::Equal <==> a@ == b@,
        r == Cmp::Greater <==> seq_lt(b@, a@),
{
    let av = chars_of(a);
    let bv = chars_of(b);
    assert(av@.take(0) =~= bv@.take(0));
    compare_chars(&av, &bv, 0)
}

fn compare_chars(a: &Vec<char>, b: &Vec<char>, i: usize) -> (r: Cmp)
    requires
        i <= a@.len(),
        i <= b@.len(),
        a@.take(i as int) == b@.take(i as int),
    ensures
        r == Cmp::Less <==> seq_lt(a@, b@),
        r == Cmp::Equal <==> a@ == b@,
        r == Cmp::Greater <==> seq_lt(b@, a@),
    decreases a@.len() - i,
{
    proof {
        lemma_lt_prefix(a@, b@, i as int);
        lemma_lt_prefix(b@, a@, i as int);
    }
    if i == a.len() {
        if i == b.len() {
            assert(a@ =~= a@.take(i as int));
            assert(b@ =~= b@.take(i as int));
            proof { lemma_lt_irreflexive(a@); }
            Cmp::Equal
        } else {
            proof { lemma_lt_asymmetric(a@.skip(i as int), b@.skip(i as int)); }
            Cmp::Less
        }
    } else if i == b.len() {
        proof { lemma_lt_asymmetric(b@.skip(i as int), a@.skip(i as int)); }
        Cmp::Greater
    } else if a[i] == b[i] {
        assert(a@.take(i + 1) =~= a@.take(i as int).push(a@[i as int]));
        assert(b@.take(i + 1) =~= b@.take(i as int).push(b@[i as int]));
        compare_chars(a, b, i + 1)
    } else {
        assert(a@.skip(i as int)[0] == a@[i as int]);
        assert(b@.skip(i as int)[0] == b@[i as int]);
        if a[i] < b[i] {
            proof { lemma_lt_asymmetric(a@.skip(i as int), b@.skip(i as int)); }
            Cmp::Less
        } else {
            proof { lemma_lt_asymmetric(b@.skip(i as int), a@.skip(i as int)); }
            Cmp::Greater
        }
    }
}

/// With a common prefix of length `i`, the order is decided by the rests.
proof fn lemma_lt_prefix(a: Seq<char>, b: Seq<char>, i: int)
    requires
        0 <= i <= a.len(),
        i <= b.len(),
        a.take(i) == b.take(i),
    ensures
        seq_lt(a, b) == seq_lt(a.skip(i), b.skip(i)),
        a == b <==> a.skip(i) == b.skip(i),
    decreases i,
{
    if i > 0 {
        assert(a[0] == a.take(i)[0]);
        assert(b[0] == b.take(i)[0]);
        assert(a.drop_first().take(i - 1) =~= a.take(i).drop_first());
        assert(b.drop_first().take(i - 1) =~= b.take(i).drop_first());
        lemma_lt_prefix(a.drop_first(), b.drop_first(), i - 1);
        assert(a.drop_first().skip(i - 1) =~= a.skip(i));
        assert(b.drop_first().skip(i - 1) =~= b.skip(i));
        if a.skip(i) == b.skip(i) {
            assert(a =~= a.take(i) + a.skip(i));
            assert(b =~= b.take(i) + b.skip(i));
        }
    } else {
        assert(a.skip(0) =~= a);
        assert(b.skip(0) =~= b);
    }
}

// ---------------------------------------------------------------------------
// Executable helpers
// ---------------------------------------------------------------------------

/// Appends one character to a string.
#[verifier::external_body]
pub(crate) fn push_char(s: &mut String, c: char)
    ensures
        final(s)@ == old(s)@.push(c),
{
    s.push(c);
}

/// Appends a string slice to a string.
pub fn push_str(s: &mut String, t: &str)
    ensures
        final(s)@ == old(s)@ + t@,
{
    s.append(t);
}

/// An owned copy of a string slice.
pub fn owned(s: &str) -> (r: String)
    ensures
        r@ == s@,
{
    String::from_str(s)
}

/// The characters of a string slice, as a vector.
pub fn chars_of(s: &str) -> (r: Vec<char>)
    ensures
        r@ == s@,
{
    let n = s.unicode_len();
    let mut r: Vec<char> = Vec::new();
    let mut i: usize = 0;
    while i < n
        invariant
            n == s@.len(),
            i <= n,
            r@ == s@.subrange(0, i as int),
        decreases n - i,
    {
        r.push(s.get_char(i));
        i = i + 1;
    }
    r
}

/// A string holding the characters `cs[from..to]`.
pub fn string_of_range(cs: &Vec<char>, from: usize, to: usize) -> (r: String)
    requires
        from <= to <= cs@.len(),
    ensures
        r@ == cs@.subrange(from as int, to as int),
{
    let mut r = String::new();
    let mut i: usize = from;
    while i < to
        invariant
            from <= i <= to <= cs@.len(),
            r@ == cs@.subrange(from as int, i as int),
        decreases to - i,
    {
        push_char(&mut r, cs[i]);
        i = i + 1;
    }
    r
}

/// A string holding exactly the given characters.
pub fn string_of(cs: &Vec<char>) -> (r: String)
    ensures
        r@ == cs@,
{
    let r = string_of_range(cs, 0, cs.len());
    assert(cs@.subrange(0, cs@.len() as int) =~= cs@);
    r
}

/// Whether two strings hold the same characters.
pub fn str_eq(a: &str, b: &str) -> (r: bool)
    ensures
        r == (a@ == b@),
{
    compare_str(a, b) == Cmp::Equal
}

/// `str::is_empty`, counted in characters.
pub fn is_empty_str(s: &str) -> (r: bool)
    ensures
        r == (s@.len() == 0),
{
    s.unicode_len() == 0
}

/// Whether `c` occurs in `s`.
pub fn contains_char(s: &str, c: char) -> (r: bool)
    ensures
        r == s@.contains(c),
{
    let cs = chars_of(s);
    find_first(&cs, c).is_some()
}

/// First index of `c` in `cs`.
pub fn find_first(cs: &Vec<char>, c: char) -> (r: Option<usize>)
    ensures
        r matches Some(i) ==> first_at(cs@, c, i as int),
        r is None <==> !cs@.contains(c),
{
    let mut i: usize = 0;
    while i < cs.len()
        invariant
            i <= cs@.len(),
            forall|j: int| 0 <= j < i ==> cs@[j] != c,
        decreases cs.len() - i,
    {
        if cs[i] == c {
            return Some(i);
        }
        i = i + 1;
    }
    None
}

/// Last index of `c` in `cs`.
pub fn find_last(cs: &Vec<char>, c: char) -> (r: Option<usize>)
    ensures
        r matches Some(i) ==> last_at(cs@, c, i as int),
        r is None <==> !cs@.contains(c),
{
    let mut i: usize = cs.len();
    while i > 0
        invariant
            i <= cs@.len(),
            forall|j: int| i <= j < cs@.len() ==> cs@[j] != c,
        decreases i,
    {
        if cs[i - 1] == c {
            return Some(i - 1);
        }
        i = i - 1;
    }
    None
}

pub proof fn lemma_first_unique(s: Seq<char>, c: char, i: int, j: int)
    requires
        first_at(s, c, i),
        first_at(s, c, j),
    ensures
        i == j,
{
}

pub proof fn lemma_last_unique(s: Seq<char>, c: char, i: int, j: int)
    requires
        last_at(s, c, i),
        last_at(s, c, j),
    ensures
        i == j,
{
}

/// `str::split_once` with a character pattern.
pub fn split_once_str(s: &str, c: char) -> (r: Option<(String, String)>)
    ensures
        match r {
            Some((a, b)) => split_once(s@, c) == Some((a@, b@)),
            None => split_once(s@, c) is None,
        },
{
    let cs = chars_of(s);
    match find_first(&cs, c) {
        Some(i) => {
            assert(i < cs.len());
            let a = string_of_range(&cs, 0, i);
            let b = string_of_range(&cs, i + 1, cs.len());
            proof {
                let k = choose|k: int| first_at(s@, c, k);
                lemma_first_unique(s@, c, k, i as int);
            }
            Some((a, b))
        },
        None => None,
    }
}

/// `str::rsplit_once` with a character pattern.
pub fn rsplit_once_str(s: &str, c: char) -> (r: Option<(String, String)>)
    ensures
        match r {
            Some((a, b)) => rsplit_once(s@, c) == Some((a@, b@)),
            None => rsplit_once(s@, c) is None,
        },
{
    let cs = chars_of(s);
    match find_last(&cs, c) {
        Some(i) => {
            assert(i < cs.len());
            let a = string_of_range(&cs, 0, i);
            let b = string_of_range(&cs, i + 1, cs.len());
            proof {
                let k = choose|k: int| last_at(s@, c, k);
                lemma_last_unique(s@, c, k, i as int);
            }
            Some((a, b))
        },
        None => None,
    }
}

/// Whether `s` contains a whitespace character.
pub fn has_ws_str(s: &str) -> (r: bool)
    ensures
        r == has_ws(s@),
{
    let cs = chars_of(s);
    let mut i: usize = 0;
    while i < cs.len()
        invariant
            i <= cs@.len(),
            cs@ == s@,
            forall|j: int| 0 <= j < i ==> !is_ws(cs@[j]),
        decreases cs.len() - i,
    {
        if is_ws_char(cs[i]) {
            return true;
        }
        i = i + 1;
    }
    false
}

/// `char::is_whitespace`.
pub fn is_ws_char(c: char) -> (r: bool)
    ensures
        r == is_ws(c),
{
    ('\u{9}' <= c && c <= '\u{d}') || c == ' ' || c == '\u{85}' || c == '\u{a0}' || c
        == '\u{1680}' || ('\u{2000}' <= c && c <= '\u{200a}') || c == '\u{2028}' || c
        == '\u{2029}' || c == '\u{202f}' || c == '\u{205f}' || c == '\u{3000}'
}

/// `char::is_ascii_alphanumeric`.
pub fn is_ascii_alnum_char(c: char) -> (r: bool)
    ensures
        r == is_ascii_alnum(c),
{
    ('0' <= c && c <= '9') || ('A' <= c && c <= 'Z') || ('a' <= c && c <= 'z')
}

/// `char::to_ascii_lowercase`.
pub fn lower_char_exec(c: char) -> (r: char)
    ensures
        r == lower_char(c),
{
    if 'A' <= c && c <= 'Z' {
        let v: u32 = (c as u32) + 32;
        assert('a' <= v as char <= 'z') by {
            assert(97 <= v <= 122);
        }
        char_from_ascii(v)
    } else {
        c
    }
}

/// The character with the given code point, for lower-case ASCII letters.
fn char_from_ascii(v: u32) -> (r: char)
    requires
        97 <= v <= 122,
    ensures
        r == v as char,
{
    let b: u8 = v as u8;
    b as char
}

/// `str::to_ascii_lowercase`.
pub fn lower_str(s: &str) -> (r: String)
    ensures
        r@ == lower(s@),
{
    let cs = chars_of(s);
    let mut out = String::new();
    let mut i: usize = 0;
    while i < cs.len()
        invariant
            i <= cs@.len(),
            out@ == lower(cs@.take(i as int)),
        decreases cs.len() - i,
    {
        let c = lower_char_exec(cs[i]);
        push_char(&mut out, c);
        assert(lower(cs@.take(i + 1)) =~= lower(cs@.take(i as int)).push(c));
        i = i + 1;
    }
    assert(cs@.take(cs@.len() as int) =~= cs@);
    out
}

/// `str::trim`.
pub fn trim_str(s: &str) -> (r: String)
    ensures
        r@ == trim(s@),
{
    let cs = chars_of(s);
    let n = cs.len();
    let mut lo: usize = 0;
    while lo < n && is_ws_char(cs[lo])
        invariant
            lo <= n == cs@.len(),
            cs@ == s@,
            forall|j: int| 0 <= j < lo ==> is_ws(#[trigger] cs@[j]),
        decreases n - lo,
    {
        lo = lo + 1;
    }
    let mut hi: usize = n;
    while hi > lo && is_ws_char(cs[hi - 1])
        invariant
            lo <= hi <= n == cs@.len(),
            cs@ == s@,
            forall|j: int| hi <= j < n ==> is_ws(#[trigger] cs@[j]),
        decreases hi,
    {
        hi = hi - 1;
    }
    let r = string_of_range(&cs, lo, hi);
    proof {
        let t = s@;
        assert(lead_ws(t, lo as int));
        let k1 = choose|k: int| lead_ws(t, k);
        assert(k1 == lo) by {
            if k1 < lo {
                assert(is_ws(t[k1]));
            }
            if k1 > lo {
                assert(is_ws(t[lo as int]));
            }
        }
        let u = t.skip(lo as int);
        assert(trail_ws(u, (hi - lo) as int)) by {
            assert forall|j: int| (hi - lo) as int <= j < u.len() implies is_ws(#[trigger] u[j]) by {
                assert(u[j] == t[j + lo]);
            }
            if hi > lo {
                assert(u[hi - lo - 1] == t[hi - 1]);
            }
        }
        let k2 = choose|k: int| trail_ws(u, k);
        assert(k2 == hi - lo) by {
            if k2 < hi - lo {
                assert(is_ws(u[hi - lo - 1]));
            }
            if k2 > hi - lo {
                assert(is_ws(u[k2 - 1]));
            }
        }
        assert(u.take(k2) =~= cs@.subrange(lo as int, hi as int));
    }
    r
}

/// Whether every character of `s` is whitespace (equivalently, whether
/// `s.trim()` is empty).
pub fn is_blank(s: &str) -> (r: bool)
    ensures
        r == all_ws(s@),
{
    let cs = chars_of(s);
    let mut i: usize = 0;
    while i < cs.len()
        invariant
            i <= cs@.len(),
            cs@ == s@,
            forall|j: int| 0 <= j < i ==> is_ws(#[trigger] cs@[j]),
        decreases cs.len() - i,
    {
        if !is_ws_char(cs[i]) {
            return false;
        }
        i = i + 1;
    }
    true
}

/// Whether `p` occurs in `s` at index `i`.
fn occurs_at_exec(s: &Vec<char>, p: &Vec<char>, i: usize) -> (r: bool)
    ensures
        r == occurs_at(s@, p@, i as int),
{
    if i > s.len() || p.len() > s.len() - i {
        return false;
    }
    let mut k: usize = 0;
    while k < p.len()
        invariant
            i <= s.len(),
            p.len() <= s.len() - i,
            k <= p@.len(),
            forall|j: int| 0 <= j < k ==> s@[i + j] == p@[j],
        decreases p.len() - k,
    {
        assert(i + k < s@.len());
        if s[i + k] != p[k] {
            assert(s@.subrange(i as int, i + p@.len())[k as int] != p@[k as int]);
            return false;
        }
        k = k + 1;
    }
    assert(s@.subrange(i as int, i + p@.len()) =~= p@);
    true
}

/// `str::contains` with a string pattern.
pub fn contains_str(s: &str, p: &str) -> (r: bool)
    ensures
        r == contains_seq(s@, p@),
{
    let sv = chars_of(s);
    let pv = chars_of(p);
    let mut i: usize = 0;
    while i < sv.len()
        invariant
            sv@ == s@,
            pv@ == p@,
            i <= sv@.len(),
            forall|j: int| 0 <= j < i ==> !occurs_at(s@, p@, j),
        decreases sv.len() - i,
    {
        if occurs_at_exec(&sv, &pv, i) {
            return true;
        }
        i = i + 1;
    }
    if occurs_at_exec(&sv, &pv, i) {
        return true;
    }
    assert forall|j: int| !occurs_at(s@, p@, j) by {
        if 0 <= j <= i {
        }
    }
    false
}

/// `str::starts_with` with a string pattern.
pub fn starts_with_str(s: &str, p: &str) -> (r: bool)
    ensures
        r == p@.is_prefix_of(s@),
{
    let sv = chars_of(s);
    let pv = chars_of(p);
    let r = occurs_at_exec(&sv, &pv, 0);
    proof {
        if r {
            assert forall|j: int| 0 <= j < p@.len() implies p@[j] == s@[j] by {
                assert(s@.subrange(0, p@.len() as int)[j] == s@[j]);
            }
        } else if p@.is_prefix_of(s@) {
            assert(s@.subrange(0, p@.len() as int) =~= p@);
        }
    }
    r
}

/// `str::replace` with a non-empty string pattern.
pub fn replace_str(s: &str, p: &str, rep: &str) -> (r: String)
    requires
        p@.len() > 0,
    ensures
        r@ == replace_all(s@, p@, rep@),
{
    let sv = chars_of(s);
    let pv = chars_of(p);
    let mut out = String::new();
    let mut i: usize = 0;
    assert(s@.skip(0) =~= s@);
    while i < sv.len()
        invariant
            sv@ == s@,
            pv@ == p@,
            p@.len() > 0,
            i <= sv@.len(),
            replace_all(s@, p@, rep@) == out@ + replace_all(s@.skip(i as int), p@, rep@),
        decreases sv.len() - i,
    {
        let ghost rest = s@.skip(i as int);
        if occurs_at_exec(&sv, &pv, i) {
            assert(rest.take(p@.len() as int) =~= s@.subrange(i as int, i + p@.len()));
            assert(rest.skip(p@.len() as int) =~= s@.skip(i + p@.len()));
            let ghost o = out@;
            push_str(&mut out, rep);
            assert(o + replace_all(rest, p@, rep@) =~= out@ + replace_all(
                s@.skip(i + p@.len()),
                p@,
                rep@,
            ));
            i = i + pv.len();
        } else {
            proof {
                if rest.len() >= p@.len() {
                    assert(rest.take(p@.len() as int) =~= s@.subrange(i as int, i + p@.len()));
                }
            }
            assert(rest.skip(1) =~= s@.skip(i + 1));
            assert(rest[0] == sv@[i as int]);
            let ghost o = out@;
            push_char(&mut out, sv[i]);
            assert(o + replace_all(rest, p@, rep@) =~= out@ + replace_all(
                s@.skip(i + 1),
                p@,
                rep@,
            ));
            i = i + 1;
        }
    }
    assert(s@.skip(i as int) =~= Seq::<char>::empty());
    out
}

/// Unfolds `split_spec` at the first separator.
pub proof fn lemma_split_at_first(s: Seq<char>, c: char, i: int)
    requires
        first_at(s, c, i),
    ensures
        split_spec(s, c) == seq![s.take(i)] + split_spec(s.skip(i + 1), c),
{
    let k = choose|k: int| first_at(s, c, k);
    lemma_first_unique(s, c, k, i);
}

/// `split_spec` of a string without the separator is the string itself.
pub proof fn lemma_split_none(s: Seq<char>, c: char)
    requires
        !s.contains(c),
    ensures
        split_spec(s, c) == seq![s],
{
}

/// `str::split` with a character separator.
pub fn split_str(s: &str, c: char) -> (r: Vec<String>)
    ensures
        r.deep_view() == split_spec(s@, c),
{
    let cs = chars_of(s);
    let mut pieces: Vec<String> = Vec::new();
    let mut start: usize = 0;
    let mut i: usize = 0;
    assert(s@.skip(0) =~= s@);
    while i < cs.len()
        invariant
            cs@ == s@,
            start <= i <= cs@.len(),
            forall|j: int| start <= j < i ==> cs@[j] != c,
            split_spec(s@, c) == pieces.deep_view() + split_spec(s@.skip(start as int), c),
        decreases cs.len() - i,
    {
        if cs[i] == c {
            let piece = string_of_range(&cs, start, i);
            let ghost rest = s@.skip(start as int);
            proof {
                assert(first_at(rest, c, (i - start) as int)) by {
                    assert forall|j: int| 0 <= j < (i - start) as int implies rest[j] != c by {
                        assert(rest[j] == cs@[j + start]);
                    }
                }
                lemma_split_at_first(rest, c, (i - start) as int);
                assert(rest.take((i - start) as int) =~= piece@);
                assert(rest.skip((i - start) + 1) =~= s@.skip(i + 1));
            }
            let ghost before = pieces.deep_view();
            pieces.push(piece);
            assert(pieces.deep_view() =~= before.push(piece@));
            start = i + 1;
        }
        i = i + 1;
    }
    let last = string_of_range(&cs, start, cs.len());
    proof {
        let rest = s@.skip(start as int);
        assert(!rest.contains(c)) by {
            if rest.contains(c) {
                let j = choose|j: int| 0 <= j < rest.len() && rest[j] == c;
                assert(rest[j] == cs@[j + start]);
            }
        }
        lemma_split_none(rest, c);
        assert(rest =~= last@);
    }
    let ghost before = pieces.deep_view();
    pieces.push(last);
    assert(pieces.deep_view() =~= before.push(last@));
    pieces
}

/// Concatenation of `pieces` with `sep` between consecutive pieces.
pub fn join_strs(pieces: &Vec<String>, sep: &str) -> (r: String)
    ensures
        r@ == join(pieces.deep_view(), sep@),
{
    let mut out = String::new();
    let mut i: usize = 0;
    while i < pieces.len()
        invariant
            i <= pieces@.len(),
            out@ == join(pieces.deep_view().take(i as int), sep@),
        decreases pieces.len() - i,
    {
        let ghost prev = pieces.deep_view().take(i as int);
        let ghost next = pieces.deep_view().take(i + 1);
        assert(next.drop_last() =~= prev);
        assert(next.last() == pieces[i as int]@);
        if i > 0 {
            push_str(&mut out, sep);
        } else {
            assert(prev =~= Seq::<Seq<char>>::empty());
        }
        push_str(&mut out, pieces[i].as_str());
        i = i + 1;
    }
    assert(pieces.deep_view().take(pieces@.len() as int) =~= pieces.deep_view());
    out
}

// ---------------------------------------------------------------------------
// Decimal numbers
// ---------------------------------------------------------------------------

pub open spec fn digit_char(d: nat) -> char {
    ((d + 48) as u32) as char
}

/// Decimal digits of `n`, as `u64::to_string` prints them.
pub open spec fn decimal(n: nat) -> Seq<char>
    decreases n,
{
    if n < 10 {
        seq![digit_char(n)]
    } else {
        decimal(n / 10).push(digit_char(n % 10))
    }
}

/// Value of a string of ASCII digits.
pub open spec fn digits_value(s: Seq<char>) -> nat
    decreases s.len(),
{
    if s.len() == 0 {
        0
    } else {
        digits_value(s.drop_last()) * 10 + ((s.last() as u32) - 48) as nat
    }
}

pub open spec fn all_digits(s: Seq<char>) -> bool {
    forall|i: int| 0 <= i < s.len() ==> is_ascii_digit(#[trigger] s[i])
}

pub proof fn lemma_decimal_value(n: nat)
    ensures
        digits_value(decimal(n)) == n,
        all_digits(decimal(n)),
        decimal(n).len() > 0,
    decreases n,
{
    if n >= 10 {
        lemma_decimal_value(n / 10);
        let d = decimal(n / 10).push(digit_char(n % 10));
        assert(d.drop_last() =~= decimal(n / 10));
        assert((digit_char(n % 10) as u32) == n % 10 + 48);
        vstd::arithmetic::div_mod::lemma_fundamental_div_mod(n as int, 10);
        assert(digits_value(d) == digits_value(d.drop_last()) * 10 + ((d.last() as u32) - 48) as nat);
        assert(d.last() == digit_char(n % 10));
        assert(((d.last() as u32) - 48) as nat == n % 10);
        assert(digits_value(d.drop_last()) == n / 10);
        assert(digits_value(d) == (n / 10) * 10 + n % 10);
        assert(decimal(n) == d);
        assert forall|i: int| 0 <= i < d.len() implies is_ascii_digit(#[trigger] d[i]) by {
            if i < d.len() - 1 {
                assert(d[i] == decimal(n / 10)[i]);
            }
        }
    } else {
        let d = decimal(n);
        assert((digit_char(n) as u32) == n + 48);
        assert(d.drop_last() =~= Seq::<char>::empty());
        assert(digits_value(d.drop_last()) == 0);
        assert(digits_value(d) == ((d.last() as u32) - 48) as nat);
    }
}

/// Distinct numbers have distinct decimal forms.
pub proof fn lemma_decimal_injective(a: nat, b: nat)
    requires
        decimal(a) == decimal(b),
    ensures
        a == b,
{
    lemma_decimal_value(a);
    lemma_decimal_value(b);
}

/// `u64::to_string`.
pub fn decimal_string(n: u64) -> (r: String)
    ensures
        r@ == decimal(n as nat),
    decreases n,
{
    let d: u64 = n % 10;
    let c = digit_exec(d);
    if n < 10 {
        let mut r = String::new();
        push_char(&mut r, c);
        assert(r@ =~= seq![c]);
        r
    } else {
        let mut r = decimal_string(n / 10);
        push_char(&mut r, c);
        r
    }
}

fn digit_exec(d: u64) -> (c: char)
    requires
        d < 10,
    ensures
        c == digit_char(d as nat),
{
    if d == 0 { '0' }
    else if d == 1 { '1' }
    else if d == 2 { '2' }
    else if d == 3 { '3' }
    else if d == 4 { '4' }
    else if d == 5 { '5' }
    else if d == 6 { '6' }
    else if d == 7 { '7' }
    else if d == 8 { '8' }
    else { '9' }
}

/// `u16::from_str`: an optional `+`, then one or more ASCII digits whose
/// value fits in a `u16`.
pub open spec fn parse_u16(s: Seq<char>) -> Option<u16> {
    let digits = if s.len() > 1 && s[0] == '+' { s.drop_first() } else { s };
    if digits.len() > 0 && all_digits(digits) && digits_value(digits) <= 65535 {
        Some(digits_value(digits) as u16)
    } else {
        None
    }
}

/// `i32::from_str`: an optional sign, then one or more ASCII digits whose
/// signed value fits in an `i32`.
pub open spec fn parse_i32(s: Seq<char>) -> Option<i32> {
    let neg = s.len() > 1 && s[0] == '-';
    let digits = if s.len() > 1 && (s[0] == '+' || s[0] == '-') { s.drop_first() } else { s };
    if digits.len() > 0 && all_digits(digits) {
        if neg && digits_value(digits) <= 2147483648 {
            Some((0 - digits_value(digits)) as i32)
        } else if !neg && digits_value(digits) <= 2147483647 {
            Some(digits_value(digits) as i32)
        } else {
            None
        }
    } else {
        None
    }
}

/// `u16::from_str`.
pub fn parse_u16_str(s: &str) -> (r: Option<u16>)
    ensures
        r == parse_u16(s@),
{
    let cs = chars_of(s);
    let from: usize = if cs.len() > 1 && cs[0] == '+' { 1 } else { 0 };
    assert(cs@.skip(from as int) =~= (if s@.len() > 1 && s@[0] == '+' { s@.drop_first() } else { s@ }));
    if cs.len() == from {
        return None;
    }
    match digits_upto(&cs, from, 65535) {
        Some(v) => Some(v as u16),
        None => None,
    }
}

/// `i32::from_str`.
pub fn parse_i32_str(s: &str) -> (r: Option<i32>)
    ensures
        r == parse_i32(s@),
{
    let cs = chars_of(s);
    let neg = cs.len() > 1 && cs[0] == '-';
    let from: usize = if cs.len() > 1 && (cs[0] == '+' || cs[0] == '-') { 1 } else { 0 };
    assert(cs@.skip(from as int) =~= (if s@.len() > 1 && (s@[0] == '+' || s@[0] == '-') { s@.drop_first() } else { s@ }));
    if cs.len() == from {
        return None;
    }
    let limit: u64 = if neg { 2147483648 } else { 2147483647 };
    match digits_upto(&cs, from, limit) {
        Some(v) => {
            if neg {
                let w: i64 = 0 - (v as i64);
                Some(w as i32)
            } else {
                Some(v as i32)
            }
        },
        None => None,
    }
}

/// Value of `cs[from..]` when every character there is a digit, or `None`
/// when a non-digit occurs or the value exceeds `limit`.
fn digits_upto(cs: &Vec<char>, from: usize, limit: u64) -> (r: Option<u64>)
    requires
        from <= cs@.len(),
        limit <= 4294967296,
    ensures
        match r {
            Some(v) => all_digits(cs@.skip(from as int)) && v == digits_value(cs@.skip(from as int))
                && v <= limit,
            None => !all_digits(cs@.skip(from as int)) || digits_value(cs@.skip(from as int))
                > limit,
        },
{
    let mut v: u64 = 0;
    let mut i: usize = from;
    while i < cs.len()
        invariant
            from <= i <= cs@.len(),
            limit <= 4294967296,
            all_digits(cs@.subrange(from as int, i as int)),
            v == digits_value(cs@.subrange(from as int, i as int)),
            v <= limit,
        decreases cs.len() - i,
    {
        let c = cs[i];
        let ghost pre = cs@.subrange(from as int, i as int);
        let ghost next = cs@.subrange(from as int, i + 1);
        assert(next.drop_last() =~= pre);
        if !('0' <= c && c <= '9') {
            proof { lemma_not_all_digits_extends(cs@, from as int, i as int); }
            return None;
        }
        let d: u64 = ((c as u32) - 48) as u64;
        assert(next.last() == c);
        assert(all_digits(next)) by {
            assert forall|j: int| 0 <= j < next.len() implies is_ascii_digit(#[trigger] next[j]) by {
                if j < pre.len() {
                    assert(next[j] == pre[j]);
                }
            }
        }
        let w: u64 = v * 10 + d;
        assert(w == digits_value(next));
        if w > limit {
            proof { lemma_value_grows(cs@, from as int, i + 1); }
            return None;
        }
        v = w;
        i = i + 1;
    }
    assert(cs@.subrange(from as int, cs@.len() as int) =~= cs@.skip(from as int));
    Some(v)
}

proof fn lemma_not_all_digits_extends(s: Seq<char>, from: int, i: int)
    requires
        0 <= from <= i < s.len(),
        !is_ascii_digit(s[i]),
    ensures
        !all_digits(s.skip(from)),
{
    assert(s.skip(from)[i - from] == s[i]);
}

/// Digit values only grow as more digits follow.
proof fn lemma_value_grows(s: Seq<char>, from: int, i: int)
    requires
        0 <= from < i <= s.len(),
    ensures
        all_digits(s.skip(from)) ==> digits_value(s.skip(from)) >= digits_value(
            s.subrange(from, i),
        ),
    decreases s.len() - i,
{
    if i < s.len() {
        lemma_value_grows(s, from, i + 1);
        let a = s.subrange(from, i + 1);
        assert(a.drop_last() =~= s.subrange(from, i));
        if all_digits(s.skip(from)) {
            assert(s.skip(from)[i - from] == s[i]);
        }
    } else {
        assert(s.subrange(from, i) =~= s.skip(from));
    }
}

} // verus!
