//! Config schema.
//!
//! Two distinct documents exist: a [`GlobalConfig`] at
//! `~/.castors/config.yaml` and an optional [`ProjectConfig`] at
//! `<mount-dir>/.castors/config.yaml`. They share three sections that get
//! merged the same way (`network`, `env`, `secrets`) and each carry one
//! layer-specific block: `defaults` (global) and `castor` (project).

use vstd::prelude::*;
use vstd::string::*;

use crate::base::domain::{CastorName, ImageTag};
use crate::base::paths::join_path;
use crate::base::domain::path_join;
use crate::sorted::{
    as_map, has_key, insert_new, lemma_empty_sorted, sorted_by_key, upsert, find_key, Keyed,
    SpecKey,
};
use crate::text::{
    chars_of, contains_char, contains_seq, contains_str, has_ws, has_ws_str, is_empty_str,
    owned, push_str, split_once, split_once_str, str_eq, string_of_range, trim, trim_str, lemma_trim_no_ws,
};

verus! {

// ---------------------------------------------------------------------------
// Proxy mode
// ---------------------------------------------------------------------------

/// Shared proxy implementation used by a config layer.
#[derive(Clone, Copy, Debug, PartialEq, Eq, Structural)]
pub enum ProxyMode {
    Squid,
    Mitm,
}

impl Default for ProxyMode {
    fn default() -> (r: Self)
        ensures
            r == ProxyMode::Squid,
    {
        ProxyMode::Squid
    }
}

// ---------------------------------------------------------------------------
// Host
// ---------------------------------------------------------------------------

/// `h` has the form `*.rest` with a sensible `rest`: non-empty, no further
/// `*`, no leading, trailing or doubled dots.
pub open spec fn valid_wildcard_host(h: Seq<char>) -> bool {
    &&& seq!['*', '.'].is_prefix_of(h)
    &&& h.len() > 2
    &&& !h.skip(2).contains('*')
    &&& h[2] != '.'
    &&& h.last() != '.'
    &&& !contains_seq(h.skip(2), seq!['.', '.'])
}

/// What went wrong with an allowlist host.
pub enum HostErrorView {
    Empty,
    HasScheme(Seq<char>),
    HasPath(Seq<char>),
    HasWhitespace(Seq<char>),
    InvalidWildcard(Seq<char>),
    HasLeadingOrTrailingDot(Seq<char>),
}

/// Validation of an allowlist host: the input, trimmed, is checked in order
/// for emptiness, a URL scheme and a path; then the input is rejected if it
/// contains whitespace anywhere (leading and trailing included); then the
/// trimmed input is checked for a malformed wildcard and a leading or
/// trailing dot. An accepted host contains no whitespace, so it is the
/// input itself.
pub open spec fn parse_host(raw: Seq<char>) -> Result<Seq<char>, HostErrorView> {
    let s = trim(raw);
    if s.len() == 0 {
        Err(HostErrorView::Empty)
    } else if contains_seq(s, "://"@) {
        Err(HostErrorView::HasScheme(s))
    } else if s.contains('/') {
        Err(HostErrorView::HasPath(s))
    } else if has_ws(raw) {
        Err(HostErrorView::HasWhitespace(s))
    } else if s.contains('*') && !valid_wildcard_host(s) {
        Err(HostErrorView::InvalidWildcard(s))
    } else if s[0] == '.' || s.last() == '.' {
        Err(HostErrorView::HasLeadingOrTrailingDot(s))
    } else {
        Ok(s)
    }
}

/// Errors produced when validating an allowlist host.
#[derive(Debug, PartialEq, Eq)]
pub enum HostParseError {
    Empty,
    HasScheme(String),
    HasPath(String),
    HasWhitespace(String),
    InvalidWildcard(String),
    HasLeadingOrTrailingDot(String),
}

impl View for HostParseError {
    type V = HostErrorView;

    open spec fn view(&self) -> HostErrorView {
        match self {
            HostParseError::Empty => HostErrorView::Empty,
            HostParseError::HasScheme(s) => HostErrorView::HasScheme(s@),
            HostParseError::HasPath(s) => HostErrorView::HasPath(s@),
            HostParseError::HasWhitespace(s) => HostErrorView::HasWhitespace(s@),
            HostParseError::InvalidWildcard(s) => HostErrorView::InvalidWildcard(s@),
            HostParseError::HasLeadingOrTrailingDot(s) => HostErrorView::HasLeadingOrTrailingDot(
                s@,
            ),
        }
    }
}

/// The human-readable text of a host error.
pub open spec fn host_error_message(e: HostErrorView) -> Seq<char> {
    match e {
        HostErrorView::Empty => "host must not be empty"@,
        HostErrorView::HasScheme(s) => "host '"@ + s
            + "' must not include a URL scheme; drop the `https://` prefix"@,
        HostErrorView::HasPath(s) => "host '"@ + s + "' must not contain a path component"@,
        HostErrorView::HasWhitespace(s) => "host '"@ + s + "' must not contain whitespace"@,
        HostErrorView::InvalidWildcard(s) => "host '"@ + s
            + "' uses an unsupported wildcard; only `*.example.com` style domains are allowed"@,
        HostErrorView::HasLeadingOrTrailingDot(s) => "host '"@ + s
            + "' must not start or end with a dot"@,
    }
}

fn quoted_message(prefix: &str, s: &String, suffix: &str) -> (r: String)
    ensures
        r@ == prefix@ + s@ + suffix@,
{
    let mut r = owned(prefix);
    push_str(&mut r, s.as_str());
    push_str(&mut r, suffix);
    r
}

impl HostParseError {
    /// The human-readable text of this error.
    pub fn to_string(&self) -> (r: String)
        ensures
            r@ == host_error_message(self@),
    {
        match self {
            HostParseError::Empty => owned("host must not be empty"),
            HostParseError::HasScheme(s) => quoted_message(
                "host '",
                s,
                "' must not include a URL scheme; drop the `https://` prefix",
            ),
            HostParseError::HasPath(s) => quoted_message(
                "host '",
                s,
                "' must not contain a path component",
            ),
            HostParseError::HasWhitespace(s) => quoted_message(
                "host '",
                s,
                "' must not contain whitespace",
            ),
            HostParseError::InvalidWildcard(s) => quoted_message(
                "host '",
                s,
                "' uses an unsupported wildcard; only `*.example.com` style domains are allowed",
            ),
            HostParseError::HasLeadingOrTrailingDot(s) => quoted_message(
                "host '",
                s,
                "' must not start or end with a dot",
            ),
        }
    }
}

/// A validated allowlist host entry: a bare hostname, a `host:port` pair, or
/// a wildcard domain in `*.example.com` form.
#[derive(Debug, PartialEq, Eq, Hash, PartialOrd, Ord)]
pub struct Host(String);

impl View for Host {
    type V = Seq<char>;

    closed spec fn view(&self) -> Seq<char> {
        self.0@
    }
}

/// Whether `h` is a well-formed wildcard host.
pub fn is_valid_wildcard_host(h: &str) -> (r: bool)
    ensures
        r == valid_wildcard_host(h@),
{
    let cs = chars_of(h);
    if cs.len() <= 2 || cs[0] != '*' || cs[1] != '.' {
        proof {
            if seq!['*', '.'].is_prefix_of(h@) {
                assert(h@[0] == seq!['*', '.'][0]);
                assert(h@[1] == seq!['*', '.'][1]);
            }
        }
        return false;
    }
    assert(seq!['*', '.'].is_prefix_of(h@));
    let rest = string_of_range(&cs, 2, cs.len());
    assert(rest@ =~= h@.skip(2));
    if contains_char(rest.as_str(), '*') {
        return false;
    }
    if cs[2] == '.' || cs[cs.len() - 1] == '.' {
        return false;
    }
    proof {
        reveal_strlit("..");
        assert(".."@ =~= seq!['.', '.']);
    }
    !contains_str(rest.as_str(), "..")
}

impl Host {
    #[verifier::type_invariant]
    closed spec fn inv(self) -> bool {
        parse_host(self.0@) == Ok::<Seq<char>, HostErrorView>(self.0@)
    }

    /// Returns the host as a string slice; that text validates back to the
    /// same host.
    pub fn as_str(&self) -> (r: &str)
        ensures
            r@ == self@,
            parse_host(r@) == Ok::<Seq<char>, HostErrorView>(r@),
    {
        proof {
            use_type_invariant(self);
        }
        self.0.as_str()
    }

    /// Validates an allowlist host (see [`parse_host`]); a host containing
    /// whitespace anywhere is rejected, so the stored host is the input.
    pub fn from_str(raw: &str) -> (r: Result<Host, HostParseError>)
        ensures
            match r {
                Ok(h) => parse_host(raw@) == Ok::<Seq<char>, HostErrorView>(h@),
                Err(e) => parse_host(raw@) == Err::<Seq<char>, HostErrorView>(e@),
            },
            r matches Ok(h) ==> !has_ws(raw@) && h@ == raw@,
    {
        let s = trim_str(raw);
        let ss = s.as_str();
        proof {
            if !has_ws(raw@) {
                lemma_trim_no_ws(raw@);
            }
        }
        if is_empty_str(ss) {
            return Err(HostParseError::Empty);
        }
        if contains_str(ss, "://") {
            return Err(HostParseError::HasScheme(s));
        }
        if contains_char(ss, '/') {
            return Err(HostParseError::HasPath(s));
        }
        if has_ws_str(raw) {
            return Err(HostParseError::HasWhitespace(s));
        }
        if contains_char(ss, '*') && !is_valid_wildcard_host(ss) {
            return Err(HostParseError::InvalidWildcard(s));
        }
        let cs = chars_of(ss);
        if cs[0] == '.' || cs[cs.len() - 1] == '.' {
            return Err(HostParseError::HasLeadingOrTrailingDot(s));
        }
        Ok(Host(s))
    }

    /// The host as an owned string (what `Display` prints).
    pub fn to_string(&self) -> (r: String)
        ensures
            r@ == self@,
    {
        owned(self.0.as_str())
    }
}

impl Clone for Host {
    fn clone(&self) -> (r: Self)
        ensures
            r == *self,
    {
        proof {
            use_type_invariant(self);
        }
        Host(self.0.clone())
    }
}

impl Keyed for Host {
    open spec fn key_spec(&self) -> SpecKey {
        (self@, Seq::empty())
    }

    fn key_first(&self) -> (r: &str) {
        self.as_str()
    }

    fn key_second(&self) -> (r: &str) {
        proof {
            reveal_strlit("");
        }
        ""
    }
}

impl std::str::FromStr for Host {
    type Err = HostParseError;

    fn from_str(raw: &str) -> (r: Result<Self, HostParseError>)
        ensures
            match r {
                Ok(h) => parse_host(raw@) == Ok::<Seq<char>, HostErrorView>(h@),
                Err(e) => parse_host(raw@) == Err::<Seq<char>, HostErrorView>(e@),
            },
            r matches Ok(h) ==> !has_ws(raw@) && h@ == raw@,
    {
        Host::from_str(raw)
    }
}

// ---------------------------------------------------------------------------
// Secrets
// ---------------------------------------------------------------------------

/// Where a secret's material comes from, as the abstract value the contracts
/// speak of.
pub enum SecretSourceView {
    Env(Seq<char>),
    File(Seq<char>),
}

/// How the proxy obtains a secret's material: `env:NAME` or `file:PATH`.
#[derive(Debug, PartialEq, Eq)]
pub enum SecretSource {
    /// Read from the operator's host environment variable.
    Env(String),
    /// Read from a file on the operator's host.
    File(String),
}

impl View for SecretSource {
    type V = SecretSourceView;

    open spec fn view(&self) -> SecretSourceView {
        match self {
            SecretSource::Env(s) => SecretSourceView::Env(s@),
            SecretSource::File(s) => SecretSourceView::File(s@),
        }
    }
}

impl Clone for SecretSource {
    fn clone(&self) -> (r: Self)
        ensures
            r == *self,
    {
        match self {
            SecretSource::Env(s) => SecretSource::Env(s.clone()),
            SecretSource::File(s) => SecretSource::File(s.clone()),
        }
    }
}

/// What went wrong with a secret source string.
pub enum SecretSourceErrorView {
    MissingScheme(Seq<char>),
    UnknownScheme(Seq<char>),
    EmptyValue(Seq<char>),
}

/// Parsing of `scheme:value`: the text before the first `:` is the scheme,
/// which must be `env` or `file`, and the rest must not be empty.
pub open spec fn parse_secret_source(s: Seq<char>) -> Result<SecretSourceView, SecretSourceErrorView> {
    match split_once(s, ':') {
        None => Err(SecretSourceErrorView::MissingScheme(s)),
        Some((scheme, rest)) => {
            if scheme == "env"@ && rest.len() > 0 {
                Ok(SecretSourceView::Env(rest))
            } else if scheme == "file"@ && rest.len() > 0 {
                Ok(SecretSourceView::File(rest))
            } else if scheme == "env"@ || scheme == "file"@ {
                Err(SecretSourceErrorView::EmptyValue(scheme))
            } else {
                Err(SecretSourceErrorView::UnknownScheme(scheme))
            }
        },
    }
}

/// The on-disk text of a secret source.
pub open spec fn secret_source_text(s: SecretSourceView) -> Seq<char> {
    match s {
        SecretSourceView::Env(v) => "env:"@ + v,
        SecretSourceView::File(p) => "file:"@ + p,
    }
}

/// Writing a secret source as text and parsing that text gives the source
/// back.
pub proof fn law_secret_source_round_trip(s: SecretSourceView)
    requires
        match s {
            SecretSourceView::Env(v) => v.len() > 0,
            SecretSourceView::File(p) => p.len() > 0,
        },
    ensures
        parse_secret_source(secret_source_text(s)) == Ok::<SecretSourceView, SecretSourceErrorView>(
            s,
        ),
{
    reveal_strlit("env:");
    reveal_strlit("env");
    reveal_strlit("file:");
    reveal_strlit("file");
    let t = secret_source_text(s);
    let n: int = match s {
        SecretSourceView::Env(_) => 3,
        SecretSourceView::File(_) => 4,
    };
    assert(crate::text::first_at(t, ':', n));
    assert(t.contains(':'));
    let i = choose|i: int| crate::text::first_at(t, ':', i);
    crate::text::lemma_first_unique(t, ':', i, n);
    match s {
        SecretSourceView::Env(v) => {
            assert(t.take(3) =~= "env"@);
            assert(t.skip(4) =~= v);
        },
        SecretSourceView::File(p) => {
            assert(t.take(4) =~= "file"@);
            assert(t.skip(5) =~= p);
            assert(t.take(4) != "env"@);
        },
    }
}

impl SecretSource {
    /// Parses `env:NAME` or `file:PATH`.
    pub fn from_str(s: &str) -> (r: Result<SecretSource, SecretSourceParseError>)
        ensures
            match r {
                Ok(v) => parse_secret_source(s@) == Ok::<SecretSourceView, SecretSourceErrorView>(
                    v@,
                ),
                Err(e) => parse_secret_source(s@) == Err::<SecretSourceView, SecretSourceErrorView>(
                    e@,
                ),
            },
    {
        match split_once_str(s, ':') {
            None => Err(SecretSourceParseError::MissingScheme(owned(s))),
            Some((scheme, rest)) => {
                let is_env = str_eq(scheme.as_str(), "env");
                let is_file = str_eq(scheme.as_str(), "file");
                let empty = is_empty_str(rest.as_str());
                if is_env && !empty {
                    Ok(SecretSource::Env(rest))
                } else if is_file && !empty {
                    Ok(SecretSource::File(rest))
                } else if is_env || is_file {
                    Err(SecretSourceParseError::EmptyValue(scheme))
                } else {
                    Err(SecretSourceParseError::UnknownScheme(scheme))
                }
            },
        }
    }

    /// The on-disk `scheme:value` text (what `Display` prints).
    pub fn to_string(&self) -> (r: String)
        ensures
            r@ == secret_source_text(self@),
    {
        match self {
            SecretSource::Env(v) => {
                let mut r = owned("env:");
                push_str(&mut r, v.as_str());
                r
            },
            SecretSource::File(p) => {
                let mut r = owned("file:");
                push_str(&mut r, p.as_str());
                r
            },
        }
    }
}

impl std::str::FromStr for SecretSource {
    type Err = SecretSourceParseError;

    fn from_str(s: &str) -> (r: Result<Self, SecretSourceParseError>)
        ensures
            match r {
                Ok(v) => parse_secret_source(s@) == Ok::<SecretSourceView, SecretSourceErrorView>(
                    v@,
                ),
                Err(e) => parse_secret_source(s@) == Err::<SecretSourceView, SecretSourceErrorView>(
                    e@,
                ),
            },
    {
        SecretSource::from_str(s)
    }
}

/// Errors produced when parsing a secret source.
#[derive(Debug, PartialEq, Eq)]
pub enum SecretSourceParseError {
    MissingScheme(String),
    UnknownScheme(String),
    EmptyValue(String),
}

impl View for SecretSourceParseError {
    type V = SecretSourceErrorView;

    open spec fn view(&self) -> SecretSourceErrorView {
        match self {
            SecretSourceParseError::MissingScheme(s) => SecretSourceErrorView::MissingScheme(s@),
            SecretSourceParseError::UnknownScheme(s) => SecretSourceErrorView::UnknownScheme(s@),
            SecretSourceParseError::EmptyValue(s) => SecretSourceErrorView::EmptyValue(s@),
        }
    }
}

/// The human-readable text of a secret source error.
pub open spec fn secret_source_error_message(e: SecretSourceErrorView) -> Seq<char> {
    match e {
        SecretSourceErrorView::MissingScheme(s) => "secret source '"@ + s
            + "' is missing a scheme; expected `env:NAME` or `file:PATH`"@,
        SecretSourceErrorView::UnknownScheme(s) => "unknown secret source scheme '"@ + s
            + "'; expected `env` or `file`"@,
        SecretSourceErrorView::EmptyValue(s) => "secret source scheme '"@ + s
            + "' requires a non-empty value"@,
    }
}

impl SecretSourceParseError {
    /// The human-readable text of this error.
    pub fn to_string(&self) -> (r: String)
        ensures
            r@ == secret_source_error_message(self@),
    {
        match self {
            SecretSourceParseError::MissingScheme(s) => quoted_message(
                "secret source '",
                s,
                "' is missing a scheme; expected `env:NAME` or `file:PATH`",
            ),
            SecretSourceParseError::UnknownScheme(s) => quoted_message(
                "unknown secret source scheme '",
                s,
                "'; expected `env` or `file`",
            ),
            SecretSourceParseError::EmptyValue(s) => quoted_message(
                "secret source scheme '",
                s,
                "' requires a non-empty value",
            ),
        }
    }
}

/// A single header-injection rule applied by the outbound proxy: requests to
/// `host` get header `header` set to `value_template` with `{{value}}`
/// replaced by the secret read from `value_from`.
#[derive(Debug, PartialEq, Eq)]
pub struct SecretInjection {
    pub host: Host,
    pub header: String,
    pub value_template: String,
    pub value_from: SecretSource,
}

impl Clone for SecretInjection {
    fn clone(&self) -> (r: Self)
        ensures
            r == *self,
    {
        SecretInjection {
            host: self.host.clone(),
            header: self.header.clone(),
            value_template: self.value_template.clone(),
            value_from: self.value_from.clone(),
        }
    }
}

// ---------------------------------------------------------------------------
// Environment variables
// ---------------------------------------------------------------------------

/// One `KEY=VALUE` environment entry.
#[derive(Debug, PartialEq, Eq)]
pub struct EnvVar {
    pub key: String,
    pub value: String,
}

impl Clone for EnvVar {
    fn clone(&self) -> (r: Self)
        ensures
            r == *self,
    {
        EnvVar { key: self.key.clone(), value: self.value.clone() }
    }
}

impl Keyed for EnvVar {
    open spec fn key_spec(&self) -> SpecKey {
        (self.key@, Seq::empty())
    }

    fn key_first(&self) -> (r: &str) {
        self.key.as_str()
    }

    fn key_second(&self) -> (r: &str) {
        proof {
            reveal_strlit("");
        }
        ""
    }
}

/// Plain environment variables, kept sorted by key with each key at most
/// once (the `BTreeMap<String, String>` of the config documents).
#[derive(Debug, PartialEq, Eq)]
pub struct EnvMap {
    entries: Vec<EnvVar>,
}

/// The variables of an entry sequence as a map from key to value.
pub open spec fn env_map_of(s: Seq<EnvVar>) -> Map<Seq<char>, Seq<char>> {
    Map::new(
        |k: Seq<char>| has_key(s, (k, Seq::empty())),
        |k: Seq<char>| as_map(s)[(k, Seq::empty())].value@,
    )
}

impl View for EnvMap {
    type V = Seq<EnvVar>;

    closed spec fn view(&self) -> Seq<EnvVar> {
        self.entries@
    }
}

impl EnvMap {
    #[verifier::type_invariant]
    closed spec fn inv(self) -> bool {
        sorted_by_key(self.entries@)
    }

    /// The variables as a map from key to value.
    pub open spec fn as_map(&self) -> Map<Seq<char>, Seq<char>> {
        env_map_of(self@)
    }

    /// An empty set of variables.
    pub fn new() -> (r: Self)
        ensures
            r@.len() == 0,
            r.as_map() == Map::<Seq<char>, Seq<char>>::empty(),
    {
        let entries: Vec<EnvVar> = Vec::new();
        proof {
            lemma_empty_sorted(entries@);
            assert(env_map_of(entries@) =~= Map::<Seq<char>, Seq<char>>::empty());
        }
        EnvMap { entries }
    }

    /// The entries in key order.
    pub fn entries(&self) -> (r: &Vec<EnvVar>)
        ensures
            r@ == self@,
            sorted_by_key(r@),
    {
        proof {
            use_type_invariant(self);
        }
        &self.entries
    }

    /// Sets `key` to `value`, replacing any previous value.
    pub fn insert(&mut self, key: String, value: String)
        ensures
            final(self).as_map() == old(self).as_map().insert(key@, value@),
            as_map(final(self)@) == as_map(old(self)@).insert(
                (key@, Seq::empty()),
                EnvVar { key, value },
            ),
    {
        proof {
            use_type_invariant(&*self);
        }
        let ghost before = self.entries@;
        let var = EnvVar { key, value };
        let ghost gvar = var;
        let mut entries = Vec::new();
        std::mem::swap(&mut entries, &mut self.entries);
        upsert(&mut entries, var);
        proof {
            lemma_env_map_insert(before, entries@, gvar);
        }
        self.entries = entries;
    }

    /// The value of `key`, if set.
    pub fn get(&self, key: &str) -> (r: Option<&String>)
        ensures
            match r {
                Some(v) => self.as_map().contains_key(key@) && self.as_map()[key@] == v@,
                None => !self.as_map().contains_key(key@),
            },
    {
        proof {
            use_type_invariant(self);
            reveal_strlit("");
        }
        assert(""@ =~= Seq::<char>::empty());
        match find_key(&self.entries, key, "") {
            Some(i) => {
                assert(has_key(self.entries@, (key@, Seq::<char>::empty())));
                Some(&self.entries[i].value)
            },
            None => None,
        }
    }

    /// Number of variables.
    pub fn len(&self) -> (r: usize)
        ensures
            r == self@.len(),
    {
        self.entries.len()
    }

    /// Whether no variable is set.
    pub fn is_empty(&self) -> (r: bool)
        ensures
            r == (self@.len() == 0),
    {
        self.entries.len() == 0
    }
}

/// Binding an entry's key in the entry map binds it in the variable map.
pub proof fn lemma_env_map_insert(before: Seq<EnvVar>, after: Seq<EnvVar>, var: EnvVar)
    requires
        as_map(after) == as_map(before).insert(var.key_spec(), var),
    ensures
        env_map_of(after) == env_map_of(before).insert(var.key@, var.value@),
{
    let m = env_map_of(before).insert(var.key@, var.value@);
    assert forall|k: Seq<char>| #[trigger] m.contains_key(k) == env_map_of(after).contains_key(k) by {
        assert(as_map(after).contains_key((k, Seq::empty())) == has_key(after, (k, Seq::empty())));
        assert(as_map(before).contains_key((k, Seq::empty())) == has_key(
            before,
            (k, Seq::empty()),
        ));
    }
    assert forall|k: Seq<char>| #[trigger] m.contains_key(k) implies env_map_of(after)[k] == m[k] by {
        assert(as_map(after).contains_key((k, Seq::empty())) == has_key(after, (k, Seq::empty())));
        assert(as_map(before).contains_key((k, Seq::empty())) == has_key(
            before,
            (k, Seq::empty()),
        ));
    }
    assert(env_map_of(after) =~= m);
}

impl Clone for EnvMap {
    fn clone(&self) -> (r: Self)
        ensures
            r@ == self@,
    {
        proof {
            use_type_invariant(self);
        }
        let mut entries: Vec<EnvVar> = Vec::new();
        let mut i: usize = 0;
        while i < self.entries.len()
            invariant
                i <= self.entries@.len(),
                entries@ == self.entries@.take(i as int),
            decreases self.entries@.len() - i,
        {
            entries.push(self.entries[i].clone());
            assert(entries@ =~= self.entries@.take(i + 1));
            i = i + 1;
        }
        assert(entries@ =~= self.entries@);
        EnvMap { entries }
    }
}

impl Default for EnvMap {
    fn default() -> (r: Self)
        ensures
            r@.len() == 0,
    {
        EnvMap::new()
    }
}

// ---------------------------------------------------------------------------
// Sections and documents
// ---------------------------------------------------------------------------

/// The `network` section shared by both documents.
#[derive(Debug, PartialEq, Eq)]
pub struct NetworkConfig {
    /// Hosts the proxy will allow outbound traffic to.
    pub allowed_hosts: Vec<Host>,
    /// Shared proxy implementation used by this config layer.
    pub proxy: Option<ProxyMode>,
}

impl Default for NetworkConfig {
    fn default() -> (r: Self)
        ensures
            r.allowed_hosts@.len() == 0,
            r.proxy is None,
    {
        NetworkConfig { allowed_hosts: Vec::new(), proxy: None }
    }
}

/// Defaults that apply to every castor on this host.
#[derive(Debug, Default, PartialEq, Eq)]
pub struct GlobalDefaults {
    /// Image to use when neither the CLI nor the project config picks one.
    pub image: Option<ImageTag>,
}

/// Per-castor identity carried by the project config.
#[derive(Debug, Default, PartialEq, Eq)]
pub struct ProjectCastor {
    /// Explicit name. If absent, a `<dir>-<n>` name is generated.
    pub name: Option<CastorName>,
    /// Image override. Beats `defaults.image` from the global config.
    pub image: Option<ImageTag>,
}

/// Global config: applies to every castor on the host.
#[derive(Debug, Default, PartialEq, Eq)]
pub struct GlobalConfig {
    pub defaults: GlobalDefaults,
    pub network: NetworkConfig,
    /// Plain environment variables passed via `docker run -e KEY=VAL`.
    /// Visible to the agent: not for secrets.
    pub env: EnvMap,
    /// Header-injection rules for the outbound proxy.
    pub secrets: Vec<SecretInjection>,
}

/// Project config: scoped to one workdir.
#[derive(Debug, Default, PartialEq, Eq)]
pub struct ProjectConfig {
    pub castor: ProjectCastor,
    pub network: NetworkConfig,
    pub env: EnvMap,
    pub secrets: Vec<SecretInjection>,
}

/// `doc` is a global config with every section empty.
pub open spec fn is_empty_global(doc: GlobalConfig) -> bool {
    &&& doc.defaults.image is None
    &&& doc.network.allowed_hosts@.len() == 0
    &&& doc.network.proxy is None
    &&& doc.env@.len() == 0
    &&& doc.secrets@.len() == 0
}

/// `doc` is a project config with every section empty.
pub open spec fn is_empty_project(doc: ProjectConfig) -> bool {
    &&& doc.castor.name is None
    &&& doc.castor.image is None
    &&& doc.network.allowed_hosts@.len() == 0
    &&& doc.network.proxy is None
    &&& doc.env@.len() == 0
    &&& doc.secrets@.len() == 0
}

impl GlobalConfig {
    /// The document that a missing global config file stands for.
    pub fn empty() -> (r: Self)
        ensures
            is_empty_global(r),
    {
        GlobalConfig {
            defaults: GlobalDefaults { image: None },
            network: NetworkConfig::default(),
            env: EnvMap::new(),
            secrets: Vec::new(),
        }
    }
}

impl ProjectConfig {
    /// The document that a missing project config file stands for.
    pub fn empty() -> (r: Self)
        ensures
            is_empty_project(r),
    {
        ProjectConfig {
            castor: ProjectCastor { name: None, image: None },
            network: NetworkConfig::default(),
            env: EnvMap::new(),
            secrets: Vec::new(),
        }
    }
}

// ---------------------------------------------------------------------------
// Relative secret files
// ---------------------------------------------------------------------------

/// The directory part of a path: everything before its last component, or
/// `None` for the root and the empty path. Trailing separators are ignored.
pub open spec fn path_parent(p: Seq<char>) -> Option<Seq<char>> {
    let t = strip_trailing_slashes(p);
    if t.len() == 0 || t == seq!['/'] {
        None
    } else if !t.contains('/') {
        Some(Seq::empty())
    } else {
        let i = choose|i: int| crate::text::last_at(t, '/', i);
        let head = strip_trailing_slashes(t.take(i));
        if head.len() == 0 && t[0] == '/' {
            Some(seq!['/'])
        } else {
            Some(head)
        }
    }
}

/// `p` without trailing `/` characters, but never shorter than one
/// character when `p` starts with `/`.
pub open spec fn strip_trailing_slashes(p: Seq<char>) -> Seq<char>
    decreases p.len(),
{
    if p.len() > 1 && p.last() == '/' {
        strip_trailing_slashes(p.drop_last())
    } else {
        p
    }
}

/// A secret source with a relative file path resolved against `base`.
pub open spec fn resolve_source(s: SecretSourceView, base: Seq<char>) -> SecretSourceView {
    match s {
        SecretSourceView::File(p) => if p.len() > 0 && p[0] == '/' {
            s
        } else {
            SecretSourceView::File(path_join(base, p))
        },
        other => other,
    }
}

/// The directory a config file at `config_path` lives in (`""` if none).
pub open spec fn config_dir(config_path: Seq<char>) -> Seq<char> {
    match path_parent(config_path) {
        Some(q) => q,
        None => Seq::<char>::empty(),
    }
}

/// `after` is `before` with every relative secret file resolved against the
/// directory of `config_path`; everything else is unchanged.
pub open spec fn secrets_normalized(
    before: Seq<SecretInjection>,
    after: Seq<SecretInjection>,
    config_path: Seq<char>,
) -> bool {
    &&& after.len() == before.len()
    &&& forall|i: int|
        0 <= i < before.len() ==> {
            let a = #[trigger] before[i];
            let b = after[i];
            &&& b.host == a.host
            &&& b.header == a.header
            &&& b.value_template == a.value_template
            &&& b.value_from@ == resolve_source(a.value_from@, config_dir(config_path))
        }
}

fn strip_trailing_slashes_exec(cs: &Vec<char>, hi: usize) -> (r: usize)
    requires
        hi <= cs@.len(),
    ensures
        r <= hi,
        strip_trailing_slashes(cs@.take(hi as int)) == cs@.take(r as int),
    decreases hi,
{
    if hi > 1 && cs[hi - 1] == '/' {
        assert(cs@.take(hi as int).drop_last() =~= cs@.take(hi - 1));
        strip_trailing_slashes_exec(cs, hi - 1)
    } else {
        hi
    }
}

/// `Path::parent`, with `""` for a path that has none.
pub fn parent_or_empty(p: &str) -> (r: String)
    ensures
        r@ == match path_parent(p@) {
            Some(q) => q,
            None => Seq::<char>::empty(),
        },
{
    let cs = chars_of(p);
    let n = strip_trailing_slashes_exec(&cs, cs.len());
    assert(cs@.take(cs@.len() as int) =~= p@);
    let ghost t = cs@.take(n as int);
    if n == 0 || (n == 1 && cs[0] == '/') {
        assert(n == 1 ==> t =~= seq!['/']);
        return String::new();
    }
    assert(t != seq!['/']) by {
        if t == seq!['/'] {
            assert(t.len() == 1);
        }
    }
    let mut i: usize = n;
    while i > 0 && cs[i - 1] != '/'
        invariant
            i <= n <= cs@.len(),
            t == cs@.take(n as int),
            forall|j: int| i <= j < n ==> cs@[j] != '/',
        decreases i,
    {
        i = i - 1;
    }
    if i == 0 {
        assert(!t.contains('/')) by {
            if t.contains('/') {
                let j = choose|j: int| 0 <= j < t.len() && t[j] == '/';
                assert(cs@[j] == '/');
            }
        }
        return String::new();
    }
    let slash = i - 1;
    assert(crate::text::last_at(t, '/', slash as int));
    proof {
        let k = choose|k: int| crate::text::last_at(t, '/', k);
        crate::text::lemma_last_unique(t, '/', k, slash as int);
        assert(t.take(slash as int) =~= cs@.take(slash as int));
    }
    let h = strip_trailing_slashes_exec(&cs, slash);
    if h == 0 && cs[0] == '/' {
        let mut r = String::new();
        crate::text::push_char(&mut r, '/');
        assert(r@ =~= seq!['/']);
        r
    } else {
        assert(t[0] == cs@[0]);
        string_of_range(&cs, 0, h)
    }
}

/// Resolves relative secret file paths against the directory that holds the
/// config file at `config_path`, in place. Absolute paths and `env:` sources
/// are left as they are.
pub fn normalize_relative_secret_files(secrets: &mut Vec<SecretInjection>, config_path: &str)
    ensures
        secrets_normalized(old(secrets)@, final(secrets)@, config_path@),
{
    let base = parent_or_empty(config_path);
    let ghost orig = secrets@;
    let mut i: usize = 0;
    while i < secrets.len()
        invariant
            i <= secrets@.len(),
            secrets@.len() == orig.len(),
            forall|j: int| i <= j < orig.len() ==> secrets@[j] == orig[j],
            forall|j: int|
                0 <= j < i ==> {
                    let a = #[trigger] orig[j];
                    let b = secrets@[j];
                    &&& b.host == a.host
                    &&& b.header == a.header
                    &&& b.value_template == a.value_template
                    &&& b.value_from@ == resolve_source(a.value_from@, base@)
                },
        decreases secrets.len() - i,
    {
        let replacement = match &secrets[i].value_from {
            SecretSource::File(path) => {
                let pc = chars_of(path.as_str());
                if pc.len() > 0 && pc[0] == '/' {
                    None
                } else {
                    Some(SecretSource::File(join_path(base.as_str(), path.as_str())))
                }
            },
            SecretSource::Env(_) => None,
        };
        match replacement {
            Some(src) => {
                let old_entry = secrets[i].clone();
                let updated = SecretInjection {
                    host: old_entry.host,
                    header: old_entry.header,
                    value_template: old_entry.value_template,
                    value_from: src,
                };
                secrets.set(i, updated);
            },
            None => {},
        }
        i = i + 1;
    }
}

impl GlobalConfig {
    /// Resolves relative secret file paths against the config file's
    /// directory (see [`normalize_relative_secret_files`]).
    pub fn normalize_relative_secret_files(&mut self, config_path: &str)
        ensures
            final(self).defaults == old(self).defaults,
            final(self).network == old(self).network,
            final(self).env == old(self).env,
            secrets_normalized(old(self).secrets@, final(self).secrets@, config_path@),
    {
        normalize_relative_secret_files(&mut self.secrets, config_path);
    }
}

impl ProjectConfig {
    /// Resolves relative secret file paths against the config file's
    /// directory (see [`normalize_relative_secret_files`]).
    pub fn normalize_relative_secret_files(&mut self, config_path: &str)
        ensures
            final(self).castor == old(self).castor,
            final(self).network == old(self).network,
            final(self).env == old(self).env,
            secrets_normalized(old(self).secrets@, final(self).secrets@, config_path@),
    {
        normalize_relative_secret_files(&mut self.secrets, config_path);
    }
}

} // verus!
