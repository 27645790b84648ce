//! Identity resolution for `castors add`.
//!
//! "Identity" means the castor's [`CastorName`] and the [`ImageTag`] its
//! container is built from. Both come from several places, with a fixed
//! precedence chain:
//!
//! - **Image**: CLI flag > `castor.image` (project) > `defaults.image`
//!   (global), otherwise [`IdentityError::NoImage`].
//! - **Name**: CLI flag > `castor.name` (project), otherwise an
//!   auto-generated `<sanitized-dir-basename>-<n>` where `n` is the smallest
//!   positive integer giving a name that is not already taken.

use vstd::prelude::*;
use vstd::string::*;

use crate::base::domain::{
    castor_name_char, cur_dir, parent_dir, valid_castor_name, CastorName, ImageTag,
};
use crate::config::schema::{GlobalConfig, ProjectConfig};
use crate::text::{
    chars_of, decimal, decimal_string, is_ascii_alnum, is_ascii_alnum_char, lemma_decimal_injective,
    lemma_decimal_value, lower_char, lower_char_exec, owned, push_char, push_str, split_spec,
    split_str, str_eq, all_digits, is_ascii_digit,
};

verus! {

// ---------------------------------------------------------------------------
// Base name from the mount directory
// ---------------------------------------------------------------------------

/// The final normal component of a path split into segments (`Path::file_name`),
/// or empty when the path ends in `..` or has no normal component.
pub open spec fn last_component(segs: Seq<Seq<char>>) -> Seq<char>
    decreases segs.len(),
{
    if segs.len() == 0 {
        Seq::empty()
    } else {
        let s = segs.last();
        if s.len() == 0 || s == cur_dir() {
            last_component(segs.drop_last())
        } else if s == parent_dir() {
            Seq::empty()
        } else {
            s
        }
    }
}

/// The file name of a path, or empty if it has none.
pub open spec fn file_name(p: Seq<char>) -> Seq<char> {
    last_component(split_spec(p, '/'))
}

/// A character kept by sanitization (lowercased), anything else becomes `-`.
pub open spec fn sanitize_char(c: char) -> char {
    if is_ascii_alnum(c) || c == '_' {
        lower_char(c)
    } else {
        '-'
    }
}

/// Maps every character with [`sanitize_char`] and collapses each run of
/// `-` into one, dropping leading dashes.
pub open spec fn collapse(s: Seq<char>) -> Seq<char>
    decreases s.len(),
{
    if s.len() == 0 {
        Seq::empty()
    } else {
        let out = collapse(s.drop_last());
        let m = sanitize_char(s.last());
        if m == '-' {
            if out.len() > 0 && out.last() != '-' {
                out.push('-')
            } else {
                out
            }
        } else {
            out.push(m)
        }
    }
}

/// `s` without its trailing dashes.
pub open spec fn trim_dashes(s: Seq<char>) -> Seq<char>
    decreases s.len(),
{
    if s.len() > 0 && s.last() == '-' {
        trim_dashes(s.drop_last())
    } else {
        s
    }
}

pub const FALLBACK_NAME: &'static str = "castor";

/// The sanitized base name for a mount directory: its file name, lowercased,
/// with every character outside `[a-z0-9_]` turned into `-`, runs of `-`
/// collapsed and leading/trailing `-` trimmed; `castor` if nothing remains.
pub open spec fn auto_name_base_spec(mount_dir: Seq<char>) -> Seq<char> {
    let out = trim_dashes(collapse(file_name(mount_dir)));
    if out.len() == 0 {
        FALLBACK_NAME@
    } else {
        out
    }
}

proof fn lemma_collapse_chars(s: Seq<char>)
    ensures
        forall|i: int| 0 <= i < collapse(s).len() ==> castor_name_char(#[trigger] collapse(s)[i]),
        collapse(s).len() > 0 ==> collapse(s)[0] != '-',
    decreases s.len(),
{
    if s.len() > 0 {
        lemma_collapse_chars(s.drop_last());
        let out = collapse(s.drop_last());
        let c = s.last();
        if is_ascii_alnum(c) || c == '_' {
            assert(castor_name_char(lower_char(c)));
        }
        let r = collapse(s);
        assert forall|i: int| 0 <= i < r.len() implies castor_name_char(#[trigger] r[i]) by {
            if i < out.len() {
                assert(r[i] == out[i]);
            }
        }
    }
}

proof fn lemma_trim_dashes(s: Seq<char>)
    ensures
        trim_dashes(s).len() <= s.len(),
        trim_dashes(s) == s.take(trim_dashes(s).len() as int),
    decreases s.len(),
{
    if s.len() > 0 && s.last() == '-' {
        lemma_trim_dashes(s.drop_last());
        assert(s.drop_last().take(trim_dashes(s).len() as int) =~= s.take(
            trim_dashes(s).len() as int,
        ));
    } else {
        assert(s.take(s.len() as int) =~= s);
    }
}

/// The base name is always a valid castor name.
pub proof fn lemma_auto_name_base_valid(mount_dir: Seq<char>)
    ensures
        valid_castor_name(auto_name_base_spec(mount_dir)),
{
    let c = collapse(file_name(mount_dir));
    lemma_collapse_chars(file_name(mount_dir));
    lemma_trim_dashes(c);
    let t = trim_dashes(c);
    if t.len() == 0 {
        reveal_strlit("castor");
    } else {
        assert forall|i: int| 0 <= i < t.len() implies castor_name_char(#[trigger] t[i]) by {
            assert(t[i] == c[i]);
        }
    }
}

/// A character of a generated base name: a lowercase ASCII letter, a
/// digit, `_` or `-`.
pub open spec fn base_char(c: char) -> bool {
    ('a' <= c && c <= 'z') || is_ascii_digit(c) || c == '_' || c == '-'
}

/// `s` has the shape of a generated base name: non-empty, made of
/// [`base_char`]s, neither starting nor ending with `-`, and never holding
/// two `-` in a row.
pub open spec fn base_shaped(s: Seq<char>) -> bool {
    &&& s.len() > 0
    &&& forall|i: int| 0 <= i < s.len() ==> base_char(#[trigger] s[i])
    &&& s[0] != '-'
    &&& s.last() != '-'
    &&& forall|i: int| 0 <= i < s.len() - 1 ==> !(#[trigger] s[i] == '-' && s[i + 1] == '-')
}

proof fn lemma_collapse_shape(s: Seq<char>)
    ensures
        forall|i: int| 0 <= i < collapse(s).len() ==> base_char(#[trigger] collapse(s)[i]),
        collapse(s).len() > 0 ==> collapse(s)[0] != '-',
        forall|i: int|
            0 <= i < collapse(s).len() - 1 ==> !(#[trigger] collapse(s)[i] == '-' && collapse(s)[i
                + 1] == '-'),
    decreases s.len(),
{
    if s.len() > 0 {
        lemma_collapse_shape(s.drop_last());
        let out = collapse(s.drop_last());
        let c = s.last();
        if is_ascii_alnum(c) || c == '_' {
            assert(base_char(lower_char(c)));
        }
        let r = collapse(s);
        assert forall|i: int| 0 <= i < r.len() implies base_char(#[trigger] r[i]) by {
            if i < out.len() {
                assert(r[i] == out[i]);
            }
        }
        assert forall|i: int| 0 <= i < r.len() - 1 implies !(#[trigger] r[i] == '-' && r[i + 1]
            == '-') by {
            assert(r[i] == out[i]);
            if i + 1 < out.len() {
                assert(r[i + 1] == out[i + 1]);
            }
        }
    }
}

proof fn lemma_trim_dashes_last(s: Seq<char>)
    ensures
        trim_dashes(s).len() > 0 ==> trim_dashes(s).last() != '-',
    decreases s.len(),
{
    if s.len() > 0 && s.last() == '-' {
        lemma_trim_dashes_last(s.drop_last());
    }
}

/// Every generated base name has the shape of [`base_shaped`]: lowercase
/// letters, digits, `_` and single `-` between them.
pub proof fn law_auto_name_base_shape(mount_dir: Seq<char>)
    ensures
        base_shaped(auto_name_base_spec(mount_dir)),
{
    let c = collapse(file_name(mount_dir));
    lemma_collapse_shape(file_name(mount_dir));
    lemma_trim_dashes(c);
    lemma_trim_dashes_last(c);
    let t = trim_dashes(c);
    if t.len() == 0 {
        reveal_strlit("castor");
        assert(FALLBACK_NAME@ =~= seq!['c', 'a', 's', 't', 'o', 'r']);
    } else {
        assert forall|i: int| 0 <= i < t.len() implies base_char(#[trigger] t[i]) by {
            assert(t[i] == c[i]);
        }
        assert(t[0] == c[0]);
        assert forall|i: int| 0 <= i < t.len() - 1 implies !(#[trigger] t[i] == '-' && t[i + 1]
            == '-') by {
            assert(t[i] == c[i]);
            assert(t[i + 1] == c[i + 1]);
        }
    }
}

proof fn lemma_collapse_fixed(s: Seq<char>)
    requires
        forall|i: int| 0 <= i < s.len() ==> base_char(#[trigger] s[i]),
        s.len() > 0 ==> s[0] != '-',
        forall|i: int| 0 <= i < s.len() - 1 ==> !(#[trigger] s[i] == '-' && s[i + 1] == '-'),
    ensures
        collapse(s) == s,
    decreases s.len(),
{
    if s.len() > 0 {
        let p = s.drop_last();
        assert forall|i: int| 0 <= i < p.len() - 1 implies !(#[trigger] p[i] == '-' && p[i + 1]
            == '-') by {
            assert(p[i] == s[i] && p[i + 1] == s[i + 1]);
        }
        lemma_collapse_fixed(p);
        let c = s.last();
        assert(base_char(s[s.len() - 1]));
        if c == '-' {
            assert(s.len() >= 2);
            assert(!(s[s.len() - 2] == '-' && s[s.len() - 1] == '-'));
            assert(p.last() == s[s.len() - 2]);
        }
        assert(s =~= p.push(c));
    }
}

/// Generating a base name from a generated base name gives it back.
pub proof fn law_auto_name_base_idempotent(mount_dir: Seq<char>)
    ensures
        auto_name_base_spec(auto_name_base_spec(mount_dir)) == auto_name_base_spec(mount_dir),
{
    let b = auto_name_base_spec(mount_dir);
    law_auto_name_base_shape(mount_dir);
    assert(!b.contains('/')) by {
        if b.contains('/') {
            let i = choose|i: int| 0 <= i < b.len() && b[i] == '/';
            assert(base_char(b[i]));
        }
    }
    crate::text::lemma_split_none(b, '/');
    let segs = split_spec(b, '/');
    assert(segs.last() == b);
    assert(b != cur_dir()) by {
        assert(base_char(b[0]));
    }
    assert(b != parent_dir()) by {
        assert(base_char(b[0]));
    }
    assert(file_name(b) == b);
    lemma_collapse_fixed(b);
    assert(trim_dashes(b) == b);
}

proof fn lemma_collapse_nothing_kept(s: Seq<char>)
    requires
        forall|i: int| 0 <= i < s.len() ==> !(is_ascii_alnum(#[trigger] s[i]) || s[i] == '_'),
    ensures
        collapse(s).len() == 0,
    decreases s.len(),
{
    if s.len() > 0 {
        let p = s.drop_last();
        assert forall|i: int| 0 <= i < p.len() implies !(is_ascii_alnum(#[trigger] p[i]) || p[i]
            == '_') by {
            assert(p[i] == s[i]);
        }
        lemma_collapse_nothing_kept(p);
        assert(!(is_ascii_alnum(s[s.len() - 1]) || s[s.len() - 1] == '_'));
    }
}

/// A mount directory whose file name has no ASCII letter, digit or `_`
/// (including one with no file name at all, such as `/`) gets the base
/// name `castor`.
pub proof fn law_auto_name_base_fallback(mount_dir: Seq<char>)
    requires
        forall|i: int|
            0 <= i < file_name(mount_dir).len() ==> !(is_ascii_alnum(#[trigger] file_name(mount_dir)[i])
                || file_name(mount_dir)[i] == '_'),
    ensures
        auto_name_base_spec(mount_dir) == FALLBACK_NAME@,
{
    lemma_collapse_nothing_kept(file_name(mount_dir));
    assert(trim_dashes(collapse(file_name(mount_dir))).len() == 0);
}

/// The file name of `a/b`, for `b` without `/`: `b` itself when it is a
/// normal component, the file name of `a` when `b` is empty or `.`, and
/// none when it is `..`.
proof fn lemma_file_name_append(a: Seq<char>, b: Seq<char>)
    requires
        !b.contains('/'),
    ensures
        file_name(a + seq!['/'] + b) == if b.len() == 0 || b == cur_dir() {
            file_name(a)
        } else if b == parent_dir() {
            Seq::empty()
        } else {
            b
        },
{
    crate::text::lemma_split_append(a, '/', b);
    let segs = split_spec(a, '/').push(b);
    assert(segs.drop_last() =~= split_spec(a, '/'));
    assert(segs.last() == b);
}

/// A trailing `/` does not change a path's file name, so it does not change
/// the base name generated from it: `castors add dir/` names the castor
/// after `dir`, as `castors add dir` does.
pub proof fn law_auto_name_base_ignores_trailing_slash(p: Seq<char>)
    ensures
        file_name(p + seq!['/']) == file_name(p),
        auto_name_base_spec(p + seq!['/']) == auto_name_base_spec(p),
{
    lemma_file_name_append(p, Seq::empty());
    assert(p + seq!['/'] + Seq::<char>::empty() =~= p + seq!['/']);
}

/// A path whose last component is a name made only of lowercase ASCII
/// letters, digits and `_` gets that name as its base, with or without a
/// trailing `/`.
pub proof fn law_auto_name_base_of_plain_name(dir: Seq<char>, n: Seq<char>)
    requires
        n.len() > 0,
        forall|i: int|
            0 <= i < n.len() ==> ('a' <= #[trigger] n[i] && n[i] <= 'z') || is_ascii_digit(n[i])
                || n[i] == '_',
    ensures
        auto_name_base_spec(dir + seq!['/'] + n) == n,
        auto_name_base_spec(dir + seq!['/'] + n + seq!['/']) == n,
{
    assert(!n.contains('/')) by {
        if n.contains('/') {
            let i = choose|i: int| 0 <= i < n.len() && n[i] == '/';
            assert(n[i] == '/');
        }
    }
    assert(n != cur_dir()) by {
        assert(n[0] != '.');
    }
    assert(n != parent_dir()) by {
        assert(n[0] != '.');
    }
    lemma_file_name_append(dir, n);
    assert forall|i: int| 0 <= i < n.len() implies base_char(#[trigger] n[i]) by {}
    assert forall|i: int| 0 <= i < n.len() - 1 implies !(#[trigger] n[i] == '-' && n[i + 1]
        == '-') by {}
    lemma_collapse_fixed(n);
    assert(n.last() != '-');
    assert(trim_dashes(n) == n);
    law_auto_name_base_ignores_trailing_slash(dir + seq!['/'] + n);
}

/// `Path::file_name` of a path, empty if there is none.
fn file_name_str(p: &str) -> (r: String)
    ensures
        r@ == file_name(p@),
{
    let segs = split_str(p, '/');
    let mut i: usize = segs.len();
    assert(segs.deep_view().take(segs@.len() as int) =~= segs.deep_view());
    while i > 0
        invariant
            i <= segs@.len(),
            segs.deep_view() == split_spec(p@, '/'),
            last_component(segs.deep_view()) == last_component(segs.deep_view().take(i as int)),
        decreases i,
    {
        let ghost pre = segs.deep_view().take(i as int);
        assert(pre.drop_last() =~= segs.deep_view().take(i - 1));
        assert(pre.last() == segs[i - 1]@);
        let cs = chars_of(segs[i - 1].as_str());
        if cs.len() == 0 || (cs.len() == 1 && cs[0] == '.') {
            assert(cs.len() == 1 ==> cs@ =~= cur_dir());
            i = i - 1;
        } else if cs.len() == 2 && cs[0] == '.' && cs[1] == '.' {
            assert(cs@ =~= parent_dir());
            return String::new();
        } else {
            assert(cs@ != cur_dir());
            assert(cs@ != parent_dir());
            return segs[i - 1].clone();
        }
    }
    assert(segs.deep_view().take(0) =~= Seq::<Seq<char>>::empty());
    String::new()
}

/// Returns the sanitized base name derived from the mount directory (see
/// [`auto_name_base_spec`]).
pub fn auto_name_base(mount_dir: &str) -> (r: CastorName)
    ensures
        r@ == auto_name_base_spec(mount_dir@),
{
    let raw = file_name_str(mount_dir);
    let cs = chars_of(raw.as_str());
    let mut out = String::new();
    let mut i: usize = 0;
    while i < cs.len()
        invariant
            i <= cs@.len(),
            cs@ == file_name(mount_dir@),
            out@ == collapse(cs@.take(i as int)),
        decreases cs.len() - i,
    {
        let ch = cs[i];
        let mapped = if is_ascii_alnum_char(ch) || ch == '_' {
            lower_char_exec(ch)
        } else {
            '-'
        };
        assert(cs@.take(i + 1).drop_last() =~= cs@.take(i as int));
        let outc = chars_of(out.as_str());
        if mapped == '-' {
            if outc.len() > 0 && outc[outc.len() - 1] != '-' {
                push_char(&mut out, '-');
            }
        } else {
            push_char(&mut out, mapped);
        }
        i = i + 1;
    }
    assert(cs@.take(cs@.len() as int) =~= cs@);
    let oc = chars_of(out.as_str());
    let mut n: usize = oc.len();
    assert(oc@.take(oc@.len() as int) =~= oc@);
    while n > 0 && oc[n - 1] == '-'
        invariant
            n <= oc@.len(),
            trim_dashes(oc@) == trim_dashes(oc@.take(n as int)),
        decreases n,
    {
        assert(oc@.take(n as int).drop_last() =~= oc@.take(n - 1));
        n = n - 1;
    }
    assert(oc@.take(oc@.len() as int) =~= oc@);
    let trimmed = crate::text::string_of_range(&oc, 0, n);
    assert(trimmed@ =~= oc@.take(n as int));
    let candidate = if n == 0 {
        owned(FALLBACK_NAME)
    } else {
        trimmed
    };
    proof {
        lemma_auto_name_base_valid(mount_dir@);
    }
    match CastorName::from_str(candidate.as_str()) {
        Ok(name) => name,
        Err(_) => vstd::pervasive::unreached(),
    }
}

// ---------------------------------------------------------------------------
// Auto-incremented names
// ---------------------------------------------------------------------------

/// `<base>-<n>`.
pub open spec fn suffixed(base: Seq<char>, n: nat) -> Seq<char> {
    base + seq!['-'] + decimal(n)
}

/// The names in a list of taken names.
pub open spec fn name_views(taken: Seq<CastorName>) -> Seq<Seq<char>> {
    taken.map_values(|n: CastorName| n@)
}

/// `n` is the smallest positive suffix whose name is not taken.
pub open spec fn first_free_suffix(base: Seq<char>, taken: Seq<CastorName>, n: nat) -> bool {
    &&& n >= 1
    &&& !name_views(taken).contains(suffixed(base, n))
    &&& forall|m: nat| 1 <= m < n ==> name_views(taken).contains(#[trigger] suffixed(base, m))
}

proof fn lemma_suffixed_injective(base: Seq<char>, a: nat, b: nat)
    requires
        suffixed(base, a) == suffixed(base, b),
    ensures
        a == b,
{
    let k = base.len() as int + 1;
    assert(suffixed(base, a).skip(k) =~= decimal(a));
    assert(suffixed(base, b).skip(k) =~= decimal(b));
    lemma_decimal_injective(a, b);
}

/// If the names with suffixes `1..=n` are all taken, at least `n` names are
/// taken.
proof fn lemma_pigeonhole(base: Seq<char>, taken: Seq<Seq<char>>, n: nat)
    requires
        forall|m: nat| 1 <= m <= n ==> taken.contains(#[trigger] suffixed(base, m)),
    ensures
        n <= taken.len(),
{
    let dom = vstd::set_lib::set_int_range(1, n as int + 1);
    vstd::set_lib::lemma_int_range(1, n as int + 1);
    let f = |m: int| suffixed(base, m as nat);
    let img = dom.map(f);
    assert(vstd::relations::injective_on(f, dom)) by {
        assert forall|x: int, y: int| dom.contains(x) && dom.contains(y) && #[trigger] f(x) == #[trigger] f(y) implies x == y by {
            lemma_suffixed_injective(base, x as nat, y as nat);
        }
    }
    vstd::set_lib::lemma_map_size(dom, img, f);
    assert(img.subset_of(taken.to_set())) by {
        assert forall|s: Seq<char>| img.contains(s) implies taken.to_set().contains(s) by {
            let x = choose|x: int| dom.contains(x) && f(x) == s;
            assert(taken.contains(suffixed(base, x as nat)));
        }
    }
    taken.lemma_cardinality_of_set();
    vstd::set_lib::lemma_len_subset(img, taken.to_set());
}

/// Whether `name` is one of the taken names.
pub fn is_taken(taken: &[CastorName], name: &str) -> (r: bool)
    ensures
        r == name_views(taken@).contains(name@),
{
    let mut i: usize = 0;
    while i < taken.len()
        invariant
            i <= taken@.len(),
            forall|j: int| 0 <= j < i ==> taken@[j]@ != name@,
        decreases taken.len() - i,
    {
        if str_eq(taken[i].as_str(), name) {
            assert(name_views(taken@)[i as int] == name@);
            return true;
        }
        i = i + 1;
    }
    assert(!name_views(taken@).contains(name@)) by {
        if name_views(taken@).contains(name@) {
            let j = choose|j: int| 0 <= j < name_views(taken@).len() && name_views(taken@)[j] == name@;
            assert(taken@[j]@ == name@);
        }
    }
    false
}

/// Returns `<base>-<n>` for the smallest `n >= 1` that is not taken. This
/// always terminates: at most `taken.len()` suffixes can be taken.
pub fn auto_name(base: &CastorName, taken: &[CastorName]) -> (r: CastorName)
    requires
        taken@.len() < usize::MAX,
    ensures
        exists|n: nat| first_free_suffix(base@, taken@, n) && r@ == suffixed(base@, n),
{
    let b = base.as_str();
    let len: usize = taken.len();
    let mut n: usize = 1;
    while n <= len
        invariant
            len == taken@.len(),
            len < usize::MAX,
            1 <= n,
            n as int <= taken@.len() + 1,
            forall|m: nat| 1 <= m < n ==> name_views(taken@).contains(#[trigger] suffixed(base@, m)),
            valid_castor_name(base@),
            b@ == base@,
        decreases taken@.len() + 1 - n,
    {
        let candidate = suffixed_name(b, n as u64);
        if !is_taken(taken, candidate.as_str()) {
            return make_suffixed(base, n as u64, candidate, taken);
        }
        proof {
            lemma_pigeonhole(base@, name_views(taken@), n as nat);
            assert(name_views(taken@).len() == taken@.len());
        }
        n = n + 1;
    }
    // every suffix 1..=len is taken; len + 1 is then free
    let candidate = suffixed_name(b, n as u64);
    proof {
        if name_views(taken@).contains(suffixed(base@, n as nat)) {
            lemma_pigeonhole(base@, name_views(taken@), n as nat);
            assert(name_views(taken@).len() == taken@.len());
        }
    }
    make_suffixed(base, n as u64, candidate, taken)
}

/// `<base>-<n>` as a string.
fn suffixed_name(base: &str, n: u64) -> (r: String)
    ensures
        r@ == suffixed(base@, n as nat),
{
    let mut s = owned(base);
    push_char(&mut s, '-');
    let d = decimal_string(n);
    push_str(&mut s, d.as_str());
    s
}

/// Wraps a free suffixed name as a castor name.
fn make_suffixed(base: &CastorName, n: u64, candidate: String, taken: &[CastorName]) -> (r: CastorName)
    requires
        n >= 1,
        candidate@ == suffixed(base@, n as nat),
        !name_views(taken@).contains(candidate@),
        forall|m: nat| 1 <= m < n ==> name_views(taken@).contains(#[trigger] suffixed(base@, m)),
    ensures
        exists|k: nat| first_free_suffix(base@, taken@, k) && r@ == suffixed(base@, k),
{
    let _ = base.as_str();
    proof {
        lemma_decimal_value(n as nat);
        let s = suffixed(base@, n as nat);
        let d = decimal(n as nat);
        assert forall|i: int| 0 <= i < s.len() implies castor_name_char(#[trigger] s[i]) by {
            if i < base@.len() {
                assert(s[i] == base@[i]);
            } else if i > base@.len() {
                assert(s[i] == d[i - base@.len() - 1]);
                assert(is_ascii_digit(d[i - base@.len() - 1]));
            }
        }
        assert(first_free_suffix(base@, taken@, n as nat));
    }
    match CastorName::from_str(candidate.as_str()) {
        Ok(name) => name,
        Err(_) => vstd::pervasive::unreached(),
    }
}

// ---------------------------------------------------------------------------
// Identity resolution
// ---------------------------------------------------------------------------

pub const NO_IMAGE_MSG: &'static str = "no image specified: pass `-i IMAGE`, set `castor.image` in the project config, or set `defaults.image` in the global config";

/// Errors produced by identity resolution.
#[derive(Debug, PartialEq, Eq)]
pub enum IdentityError {
    NoImage,
    NameTaken(CastorName),
}

impl IdentityError {
    /// The human-readable text of this error.
    pub fn to_string(&self) -> (r: String)
        ensures
            match self {
                IdentityError::NoImage => r@ == NO_IMAGE_MSG@,
                IdentityError::NameTaken(n) => r@ == "explicit name '"@ + n@
                    + "' is already taken; pick another with `-n NAME` or `castors rm "@ + n@
                    + "` first"@,
            },
    {
        match self {
            IdentityError::NoImage => owned(NO_IMAGE_MSG),
            IdentityError::NameTaken(n) => {
                let mut r = owned("explicit name '");
                push_str(&mut r, n.as_str());
                push_str(&mut r, "' is already taken; pick another with `-n NAME` or `castors rm ");
                push_str(&mut r, n.as_str());
                push_str(&mut r, "` first");
                r
            },
        }
    }
}

/// The view of an optional image tag.
pub open spec fn image_view(o: Option<ImageTag>) -> Option<Seq<char>> {
    match o {
        Some(i) => Some(i@),
        None => None,
    }
}

/// The view of an optional castor name.
pub open spec fn name_view(o: Option<CastorName>) -> Option<Seq<char>> {
    match o {
        Some(n) => Some(n@),
        None => None,
    }
}

/// The first image among CLI, project and global layers.
pub open spec fn chosen_image(
    cli: Option<ImageTag>,
    project: Option<ImageTag>,
    global: Option<ImageTag>,
) -> Option<Seq<char>> {
    match cli {
        Some(i) => Some(i@),
        None => match project {
            Some(i) => Some(i@),
            None => image_view(global),
        },
    }
}

/// The explicitly chosen name, CLI before project.
pub open spec fn chosen_name(cli: Option<CastorName>, project: Option<CastorName>) -> Option<
    Seq<char>,
> {
    match cli {
        Some(n) => Some(n@),
        None => name_view(project),
    }
}

fn clone_image(o: &Option<ImageTag>) -> (r: Option<ImageTag>)
    ensures
        image_view(r) == image_view(*o),
{
    match o {
        Some(i) => Some(i.clone()),
        None => None,
    }
}

/// Resolves the `(name, image)` pair for a castor about to be created.
///
/// `taken` holds the names already registered: it is consulted to detect
/// collisions (for an explicit name) and to find the next free suffix (for
/// an auto-generated one).
pub fn resolve_identity(
    cli_image: Option<ImageTag>,
    cli_name: Option<CastorName>,
    project: &ProjectConfig,
    global: &GlobalConfig,
    mount_dir: &str,
    taken: &[CastorName],
) -> (r: Result<(CastorName, ImageTag), IdentityError>)
    requires
        taken@.len() < usize::MAX,
    ensures
        ({
            let image = chosen_image(cli_image, project.castor.image, global.defaults.image);
            let explicit = chosen_name(cli_name, project.castor.name);
            match r {
                Err(IdentityError::NoImage) => image is None,
                Err(IdentityError::NameTaken(n)) => image is Some && explicit == Some(n@)
                    && name_views(taken@).contains(n@),
                Ok((name, img)) => image == Some(img@) && match explicit {
                    Some(e) => name@ == e && !name_views(taken@).contains(e),
                    None => exists|k: nat|
                        first_free_suffix(auto_name_base_spec(mount_dir@), taken@, k) && name@
                            == suffixed(auto_name_base_spec(mount_dir@), k),
                },
            }
        }),
{
    let image = match cli_image {
        Some(i) => i,
        None => match clone_image(&project.castor.image) {
            Some(i) => i,
            None => match clone_image(&global.defaults.image) {
                Some(i) => i,
                None => return Err(IdentityError::NoImage),
            },
        },
    };
    let explicit = match cli_name {
        Some(n) => Some(n),
        None => match &project.castor.name {
            Some(n) => Some(n.clone()),
            None => None,
        },
    };
    let name = match explicit {
        Some(e) => {
            if is_taken(taken, e.as_str()) {
                return Err(IdentityError::NameTaken(e));
            }
            e
        },
        None => auto_name(&auto_name_base(mount_dir), taken),
    };
    Ok((name, image))
}

} // verus!
