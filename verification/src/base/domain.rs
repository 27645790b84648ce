//! Core domain types for `castors`.
//!
//! These newtypes exist so that the rest of the codebase works in terms of
//! validated inputs rather than raw strings. Parsing happens once at the CLI
//! boundary; downstream code can then rely on the invariants encoded here.

use vstd::prelude::*;
use vstd::string::*;

use crate::text::{
    all_ws, chars_of, is_ascii_alnum, is_ascii_alnum_char, is_blank, is_empty_str, join,
    join_strs, owned, push_char, push_str, split_spec, split_str, starts_with_str, str_eq,
};

verus! {

// ---------------------------------------------------------------------------
// CastorName
// ---------------------------------------------------------------------------

/// A character allowed in a castor name.
pub open spec fn castor_name_char(c: char) -> bool {
    is_ascii_alnum(c) || c == '-' || c == '_'
}

/// A castor name is a non-empty string of ASCII letters, digits, `-` and `_`.
pub open spec fn valid_castor_name(s: Seq<char>) -> bool {
    s.len() > 0 && forall|i: int| 0 <= i < s.len() ==> castor_name_char(#[trigger] s[i])
}

pub const NAME_EMPTY_MSG: &'static str = "castor name must not be empty";

pub const NAME_CHARS_MSG: &'static str = "castor name may only contain ASCII letters, digits, '-' or '_'";

/// A validated castor name, used to identify a castor across commands.
#[derive(Debug, PartialEq, Eq, Hash, PartialOrd, Ord)]
pub struct CastorName(String);

impl View for CastorName {
    type V = Seq<char>;

    closed spec fn view(&self) -> Seq<char> {
        self.0@
    }
}

impl CastorName {
    #[verifier::type_invariant]
    closed spec fn inv(self) -> bool {
        valid_castor_name(self.0@)
    }

    /// Returns the validated name as a string slice.
    pub fn as_str(&self) -> (r: &str)
        ensures
            r@ == self@,
            valid_castor_name(self@),
    {
        proof {
            use_type_invariant(self);
        }
        self.0.as_str()
    }

    /// Parses a castor name, rejecting empty names and names with characters
    /// other than ASCII letters, digits, `-` and `_`.
    pub fn from_str(raw: &str) -> (r: Result<CastorName, String>)
        ensures
            match r {
                Ok(n) => valid_castor_name(raw@) && n@ == raw@,
                Err(e) => !valid_castor_name(raw@) && e@ == (if raw@.len() == 0 {
                    NAME_EMPTY_MSG@
                } else {
                    NAME_CHARS_MSG@
                }),
            },
    {
        let cs = chars_of(raw);
        if cs.len() == 0 {
            return Err(owned(NAME_EMPTY_MSG));
        }
        let mut i: usize = 0;
        while i < cs.len()
            invariant
                cs@ == raw@,
                i <= cs@.len(),
                forall|j: int| 0 <= j < i ==> castor_name_char(#[trigger] cs@[j]),
            decreases cs.len() - i,
        {
            let c = cs[i];
            if !(is_ascii_alnum_char(c) || c == '-' || c == '_') {
                return Err(owned(NAME_CHARS_MSG));
            }
            i = i + 1;
        }
        Ok(CastorName(owned(raw)))
    }

    /// The name as an owned string (what `Display` prints).
    pub fn to_string(&self) -> (r: String)
        ensures
            r@ == self@,
    {
        owned(self.as_str())
    }
}

impl Clone for CastorName {
    fn clone(&self) -> (r: Self)
        ensures
            r@ == self@,
    {
        proof {
            use_type_invariant(self);
        }
        CastorName(self.0.clone())
    }
}

impl std::str::FromStr for CastorName {
    type Err = String;

    fn from_str(raw: &str) -> (r: Result<Self, String>)
        ensures
            match r {
                Ok(n) => valid_castor_name(raw@) && n@ == raw@,
                Err(e) => !valid_castor_name(raw@) && e@ == (if raw@.len() == 0 {
                    NAME_EMPTY_MSG@
                } else {
                    NAME_CHARS_MSG@
                }),
            },
    {
        CastorName::from_str(raw)
    }
}

// ---------------------------------------------------------------------------
// ImageTag
// ---------------------------------------------------------------------------

pub const IMAGE_EMPTY_MSG: &'static str = "image tag must not be empty";

/// An image tag is any string with at least one non-whitespace character.
pub open spec fn valid_image_tag(s: Seq<char>) -> bool {
    !all_ws(s)
}

/// A container image reference, e.g. `my-image:latest`.
#[derive(Debug, PartialEq, Eq, Hash)]
pub struct ImageTag(String);

impl View for ImageTag {
    type V = Seq<char>;

    closed spec fn view(&self) -> Seq<char> {
        self.0@
    }
}

impl ImageTag {
    #[verifier::type_invariant]
    closed spec fn inv(self) -> bool {
        valid_image_tag(self.0@)
    }

    /// Returns the image reference as a string slice.
    pub fn as_str(&self) -> (r: &str)
        ensures
            r@ == self@,
            valid_image_tag(self@),
    {
        proof {
            use_type_invariant(self);
        }
        self.0.as_str()
    }

    /// Parses an image tag, rejecting strings that are empty after trimming
    /// whitespace. The stored tag is the input as given (untrimmed).
    pub fn from_str(raw: &str) -> (r: Result<ImageTag, String>)
        ensures
            match r {
                Ok(t) => valid_image_tag(raw@) && t@ == raw@,
                Err(e) => !valid_image_tag(raw@) && e@ == IMAGE_EMPTY_MSG@,
            },
    {
        if is_blank(raw) {
            return Err(owned(IMAGE_EMPTY_MSG));
        }
        Ok(ImageTag(owned(raw)))
    }

    /// The tag as an owned string (what `Display` prints).
    pub fn to_string(&self) -> (r: String)
        ensures
            r@ == self@,
    {
        owned(self.as_str())
    }
}

impl Clone for ImageTag {
    fn clone(&self) -> (r: Self)
        ensures
            r@ == self@,
    {
        proof {
            use_type_invariant(self);
        }
        ImageTag(self.0.clone())
    }
}

impl std::str::FromStr for ImageTag {
    type Err = String;

    fn from_str(raw: &str) -> (r: Result<Self, String>)
        ensures
            match r {
                Ok(t) => valid_image_tag(raw@) && t@ == raw@,
                Err(e) => !valid_image_tag(raw@) && e@ == IMAGE_EMPTY_MSG@,
            },
    {
        ImageTag::from_str(raw)
    }
}

// ---------------------------------------------------------------------------
// Paths
// ---------------------------------------------------------------------------

/// The path segment `.`.
pub open spec fn cur_dir() -> Seq<char> {
    seq!['.']
}

/// The path segment `..`.
pub open spec fn parent_dir() -> Seq<char> {
    seq!['.', '.']
}

/// Folds path segments into the stack of normal components that
/// `lexically_normalize` keeps: empty and `.` segments are skipped, `..`
/// drops the last kept component (if any), anything else is kept.
pub open spec fn norm_stack(segs: Seq<Seq<char>>) -> Seq<Seq<char>>
    decreases segs.len(),
{
    if segs.len() == 0 {
        Seq::empty()
    } else {
        let st = norm_stack(segs.drop_last());
        let s = segs.last();
        if s.len() == 0 || s == cur_dir() {
            st
        } else if s == parent_dir() {
            if st.len() > 0 {
                st.drop_last()
            } else {
                st
            }
        } else {
            st.push(s)
        }
    }
}

/// Whether a path starts at the root.
pub open spec fn is_absolute(p: Seq<char>) -> bool {
    p.len() > 0 && p[0] == '/'
}

/// Lexical normalization of a Unix path: the components of the path with
/// `.` removed and `..` resolved against the preceding component, without
/// touching the filesystem; the root, if any, is kept.
pub open spec fn lexically_normalize(p: Seq<char>) -> Seq<char> {
    let parts = join(norm_stack(split_spec(p, '/')), seq!['/']);
    if is_absolute(p) {
        seq!['/'] + parts
    } else {
        parts
    }
}

/// A normalized path without a parent: the root itself, or the empty path.
pub open spec fn is_filesystem_root(p: Seq<char>) -> bool {
    p.len() == 0 || p == seq!['/']
}

/// `Path::join` with a single normal component.
pub open spec fn path_join(base: Seq<char>, seg: Seq<char>) -> Seq<char> {
    if base.len() == 0 {
        seg
    } else if base.last() == '/' {
        base + seg
    } else {
        base + seq!['/'] + seg
    }
}

/// Component-wise prefix test for normalized paths (`Path::starts_with`).
pub open spec fn path_starts_with(p: Seq<char>, prefix: Seq<char>) -> bool {
    p == prefix || (prefix + seq!['/']).is_prefix_of(p)
}

pub const DOCKER_SOCKET: &'static str = "/var/run/docker.sock";

pub const RUN_DOCKER_SOCKET: &'static str = "/run/docker.sock";

pub const ROOT_MSG: &'static str = "mount directory must not be the filesystem root";

pub const DOCKER_MSG: &'static str = "mount directory must not expose Docker control path '";

pub const HOME_MSG: &'static str = "mount directory must not be the entire home directory";

pub const SENSITIVE_MSG: &'static str = "mount directory must not expose sensitive host path '";

pub const QUOTE: &'static str = "'";

/// Subdirectories of the home directory that must never be mounted, in the
/// order they are checked.
pub open spec fn sensitive_names() -> Seq<Seq<char>> {
    seq![
        ".aws"@,
        ".azure"@,
        ".castors"@,
        ".config"@,
        ".docker"@,
        ".gnupg"@,
        ".kube"@,
        ".ssh"@,
    ]
}

/// `i` is the first sensitive subdirectory of `home` that contains `path`.
pub open spec fn first_sensitive(path: Seq<char>, home: Seq<char>, i: int) -> bool {
    &&& 0 <= i < 8
    &&& path_starts_with(path, path_join(home, sensitive_names()[i]))
    &&& forall|j: int|
        0 <= j < i ==> !path_starts_with(path, path_join(home, #[trigger] sensitive_names()[j]))
}

/// The verdict of `validate_safe_source` for the mount path `p` when the
/// user's home directory is `home`.
pub open spec fn safe_source_verdict(p: Seq<char>, home: Option<Seq<char>>) -> Result<
    (),
    Seq<char>,
> {
    let path = lexically_normalize(p);
    if is_filesystem_root(path) {
        Err(ROOT_MSG@)
    } else if path == DOCKER_SOCKET@ {
        Err(DOCKER_MSG@ + DOCKER_SOCKET@ + QUOTE@)
    } else if path == RUN_DOCKER_SOCKET@ {
        Err(DOCKER_MSG@ + RUN_DOCKER_SOCKET@ + QUOTE@)
    } else {
        match home {
            None => Ok(()),
            Some(h) => {
                let hn = lexically_normalize(h);
                if path == hn {
                    Err(HOME_MSG@)
                } else if exists|i: int| first_sensitive(path, hn, i) {
                    let i = choose|i: int| first_sensitive(path, hn, i);
                    Err(SENSITIVE_MSG@ + path_join(hn, sensitive_names()[i]) + QUOTE@)
                } else {
                    Ok(())
                }
            },
        }
    }
}

/// Lexical normalization of a path (see [`lexically_normalize`]).
pub fn lexically_normalize_str(p: &str) -> (r: String)
    ensures
        r@ == lexically_normalize(p@),
{
    let segs = split_str(p, '/');
    let mut stack: Vec<String> = Vec::new();
    let mut k: usize = 0;
    while k < segs.len()
        invariant
            k <= segs@.len(),
            segs.deep_view() == split_spec(p@, '/'),
            stack.deep_view() == norm_stack(segs.deep_view().take(k as int)),
        decreases segs.len() - k,
    {
        let seg = &segs[k];
        let ghost sv = segs.deep_view();
        let ghost prev = stack.deep_view();
        assert(sv.take(k + 1).drop_last() =~= sv.take(k as int));
        assert(sv.take(k + 1).last() == seg@);
        let cs = chars_of(seg.as_str());
        if cs.len() == 0 || (cs.len() == 1 && cs[0] == '.') {
            assert(cs.len() == 1 ==> cs@ =~= cur_dir());
        } else if cs.len() == 2 && cs[0] == '.' && cs[1] == '.' {
            assert(cs@ =~= parent_dir());
            if stack.len() > 0 {
                stack.pop();
                assert(stack.deep_view() =~= prev.drop_last());
            }
        } else {
            assert(cs@ != cur_dir());
            assert(cs@ != parent_dir());
            stack.push(seg.clone());
            assert(stack.deep_view() =~= prev.push(seg@));
        }
        k = k + 1;
    }
    assert(segs.deep_view().take(segs@.len() as int) =~= segs.deep_view());
    let parts = join_strs(&stack, "/");
    proof {
        reveal_strlit("/");
        assert("/"@ =~= seq!['/']);
    }
    if starts_with_str(p, "/") {
        let mut r = owned("/");
        push_str(&mut r, parts.as_str());
        assert(p@[0] == "/"@[0]);
        assert(is_absolute(p@));
        r
    } else {
        proof {
            if is_absolute(p@) {
                assert(seq!['/'].is_prefix_of(p@));
            }
        }
        parts
    }
}

/// Component-wise prefix test for normalized paths.
fn path_starts_with_str(p: &str, prefix: &str) -> (r: bool)
    ensures
        r == path_starts_with(p@, prefix@),
{
    if str_eq(p, prefix) {
        return true;
    }
    let mut pre = owned(prefix);
    push_char(&mut pre, '/');
    starts_with_str(p, pre.as_str())
}

/// The user's home directory, as reported by `dirs::home_dir`.
///
/// `dirs::home_dir` reads `$HOME` (or the password database); its answer
/// depends on the environment, so nothing ties the result to an input. Its
/// documentation promises that a returned path is never empty.
#[verifier::external_body]
pub(crate) fn home_dir() -> (r: Option<String>)
    ensures
        r matches Some(h) ==> h@.len() > 0,
{
    dirs::home_dir().map(|p| p.to_string_lossy().into_owned())
}

/// The view of an optional string.
pub open spec fn opt_view(o: &Option<String>) -> Option<Seq<char>> {
    match o {
        Some(s) => Some(s@),
        None => None,
    }
}

/// `r` is the executable form of the verdict `v`.
pub open spec fn verdict_matches(r: Result<(), String>, v: Result<(), Seq<char>>) -> bool {
    match r {
        Ok(()) => v == Ok::<(), Seq<char>>(()),
        Err(e) => v == Err::<(), Seq<char>>(e@),
    }
}

/// The verdicts that do not depend on the home directory come first.
pub proof fn lemma_verdict_home_independent(p: Seq<char>, home: Option<Seq<char>>)
    requires
        safe_source_verdict(p, None) is Err,
    ensures
        safe_source_verdict(p, home) == safe_source_verdict(p, None),
{
}

/// The verdict of [`MountDir::validate_safe_source`] for an explicit home
/// directory.
pub fn check_safe_source(p: &str, home: &Option<String>) -> (r: Result<(), String>)
    ensures
        verdict_matches(r, safe_source_verdict(p@, opt_view(home))),
{
    let path = lexically_normalize_str(p);
    proof {
        reveal_strlit("/");
        assert("/"@ =~= seq!['/']);
    }
    if is_empty_str(path.as_str()) || str_eq(path.as_str(), "/") {
        return Err(owned(ROOT_MSG));
    }
    if str_eq(path.as_str(), DOCKER_SOCKET) {
        let mut e = owned(DOCKER_MSG);
        push_str(&mut e, DOCKER_SOCKET);
        push_str(&mut e, QUOTE);
        return Err(e);
    }
    if str_eq(path.as_str(), RUN_DOCKER_SOCKET) {
        let mut e = owned(DOCKER_MSG);
        push_str(&mut e, RUN_DOCKER_SOCKET);
        push_str(&mut e, QUOTE);
        return Err(e);
    }
    match home {
        None => Ok(()),
        Some(h) => {
            let hn = lexically_normalize_str(h.as_str());
            if str_eq(path.as_str(), hn.as_str()) {
                return Err(owned(HOME_MSG));
            }
            let names: [&str; 8] = [
                ".aws",
                ".azure",
                ".castors",
                ".config",
                ".docker",
                ".gnupg",
                ".kube",
                ".ssh",
            ];
            assert(names@.map_values(|s: &str| s@) =~= sensitive_names());
            let mut i: usize = 0;
            #[verifier::loop_isolation(false)]
            while i < 8
                invariant
                    i <= 8,
                    names@.map_values(|s: &str| s@) == sensitive_names(),
                    forall|j: int|
                        0 <= j < i ==> !path_starts_with(
                            path@,
                            path_join(hn@, #[trigger] sensitive_names()[j]),
                        ),
                decreases 8 - i,
            {
                let name = names[i];
                assert(name@ == sensitive_names()[i as int]);
                let sensitive = crate::base::paths::join_path(hn.as_str(), name);
                if path_starts_with_str(path.as_str(), sensitive.as_str()) {
                    proof {
                        assert(first_sensitive(path@, hn@, i as int));
                        let k = choose|k: int| first_sensitive(path@, hn@, k);
                        assert(k == i) by {
                            if k < i {
                            }
                            if k > i {
                            }
                        }
                    }
                    let mut e = owned(SENSITIVE_MSG);
                    push_str(&mut e, sensitive.as_str());
                    push_str(&mut e, QUOTE);
                    proof {
                        let hv = opt_view(home);
                        assert(hv == Some(h@));
                        assert(lexically_normalize(h@) == hn@);
                        assert(lexically_normalize(p@) == path@);
                        assert(exists|k: int| first_sensitive(path@, hn@, k));
                        assert(e@ == SENSITIVE_MSG@ + path_join(hn@, sensitive_names()[i as int])
                            + QUOTE@);
                    }
                    return Err(e);
                }
                i = i + 1;
            }
            Ok(())
        },
    }
}

// ---------------------------------------------------------------------------
// MountDir
// ---------------------------------------------------------------------------

pub const MOUNT_EMPTY_MSG: &'static str = "mount directory must not be empty";

/// A directory path to mount into a castor.
///
/// Only shape is validated here. Filesystem existence and canonicalization
/// are enforced by config loading and the engine, not inside this type.
#[derive(Debug, PartialEq, Eq, Hash)]
pub struct MountDir(String);

impl View for MountDir {
    type V = Seq<char>;

    closed spec fn view(&self) -> Seq<char> {
        self.0@
    }
}

/// The path `std::path::absolute` gives for an absolute path `p` on POSIX
/// platforms, which depends on `p` alone: `p` resolved lexically, without
/// touching the filesystem (repeated separators and `.` components go,
/// `..` components stay).
pub uninterp spec fn absolute_form(p: Seq<char>) -> Seq<char>;

/// `std::path::absolute` for a path given as a string, on POSIX platforms.
///
/// A relative path is resolved against the process's current directory, so
/// nothing ties its result to the input beyond this: the standard library
/// documents that an empty path is rejected, that the other failures are a
/// syntactically invalid path (such as one holding a NUL byte) and not
/// getting the current directory (which an absolute path does not need),
/// and that the result is absolute, so it starts with `/`.
#[verifier::external_body]
fn absolute_path(p: &str) -> (r: Result<String, String>)
    ensures
        p@.len() == 0 ==> r is Err,
        p@.len() > 0 && p@[0] == '/' && !p@.contains('\0') ==> r is Ok,
        r matches Ok(a) ==> a@.len() > 0 && a@[0] == '/' && (p@[0] == '/' ==> a@ == absolute_form(p@)),
{
    std::path::absolute(p).map(|a| a.to_string_lossy().into_owned()).map_err(|e| e.to_string())
}

impl MountDir {
    #[verifier::type_invariant]
    closed spec fn inv(self) -> bool {
        self.0@.len() > 0
    }

    /// Returns the mount directory as a path string.
    pub fn as_path(&self) -> (r: &str)
        ensures
            r@ == self@,
            self@.len() > 0,
    {
        proof {
            use_type_invariant(self);
        }
        self.0.as_str()
    }

    /// Parses a mount directory; only the empty path is rejected.
    pub fn from_str(raw: &str) -> (r: Result<MountDir, String>)
        ensures
            match r {
                Ok(m) => raw@.len() > 0 && m@ == raw@,
                Err(e) => raw@.len() == 0 && e@ == MOUNT_EMPTY_MSG@,
            },
    {
        if is_empty_str(raw) {
            return Err(owned(MOUNT_EMPTY_MSG));
        }
        Ok(MountDir(owned(raw)))
    }

    /// Returns an absolutized copy of this mount directory. Relative paths are
    /// joined with the current working directory; the result is not
    /// canonicalized.
    pub fn to_absolute(&self) -> (r: Result<MountDir, String>)
        ensures
            self@[0] == '/' && !self@.contains('\0') ==> (r matches Ok(m) && m@ == absolute_form(
                self@,
            )),
            r matches Ok(m) ==> m@.len() > 0 && m@[0] == '/',
    {
        match absolute_path(self.as_path()) {
            Ok(a) => Ok(MountDir(a)),
            Err(e) => Err(e),
        }
    }

    /// Rejects mount sources that would expose broad or obviously sensitive
    /// host state to the agent: the filesystem root, the Docker control
    /// sockets, the whole home directory, and well-known credential
    /// directories below it.
    pub fn validate_safe_source(&self) -> (r: Result<(), String>)
        ensures
            exists|home: Option<Seq<char>>|
                (home matches Some(h) ==> h.len() > 0) && #[trigger] verdict_matches(
                    r,
                    safe_source_verdict(self@, home),
                ),
            safe_source_verdict(self@, None) is Err ==> verdict_matches(
                r,
                safe_source_verdict(self@, None),
            ),
    {
        let home = home_dir();
        let r = check_safe_source(self.as_path(), &home);
        proof {
            if safe_source_verdict(self@, None) is Err {
                lemma_verdict_home_independent(self@, opt_view(&home));
            }
        }
        r
    }

    /// The path as an owned string.
    pub fn to_string(&self) -> (r: String)
        ensures
            r@ == self@,
    {
        owned(self.as_path())
    }
}

impl Clone for MountDir {
    fn clone(&self) -> (r: Self)
        ensures
            r@ == self@,
    {
        proof {
            use_type_invariant(self);
        }
        MountDir(self.0.clone())
    }
}

impl std::str::FromStr for MountDir {
    type Err = String;

    fn from_str(raw: &str) -> (r: Result<Self, String>)
        ensures
            match r {
                Ok(m) => raw@.len() > 0 && m@ == raw@,
                Err(e) => raw@.len() == 0 && e@ == MOUNT_EMPTY_MSG@,
            },
    {
        MountDir::from_str(raw)
    }
}

} // verus!
