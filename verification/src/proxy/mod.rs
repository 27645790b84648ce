//! Proxy services and the policy renderers they consume.
//!
//! This module is deliberately backend-independent: runtime adapters decide
//! how to run and mount a proxy, while each proxy owns its own policy
//! rendering. What both renderers share lives here: the per-mode service
//! facts, and the checks and secret material behind a header injection.

pub mod mitm;
pub mod squid;

use vstd::prelude::*;

use crate::config::schema::{ProxyMode, SecretInjection, SecretSource, SecretSourceView};
use crate::text::{
    chars_of, contains_seq, contains_str, decimal, decimal_string, has_ws, has_ws_str,
    is_empty_str, owned, push_str, replace_all, replace_str, str_eq, string_of_range,
};

verus! {

// ---------------------------------------------------------------------------
// Services
// ---------------------------------------------------------------------------

/// The stable runtime facts of a proxy service that container orchestration
/// needs; each implementation owns its own policy rendering.
pub trait ProxyService {
    fn mode(&self) -> ProxyMode;

    fn container_name(&self) -> &'static str;

    fn port(&self) -> u16;

    fn compose_profile(&self) -> Option<&'static str>;

    fn proxy_url(&self) -> String;
}

/// Container name of the proxy for `mode`.
pub open spec fn service_container_name(mode: ProxyMode) -> Seq<char> {
    match mode {
        ProxyMode::Squid => squid::CONTAINER_NAME@,
        ProxyMode::Mitm => mitm::CONTAINER_NAME@,
    }
}

/// Listening port of the proxy for `mode`.
pub open spec fn service_port(mode: ProxyMode) -> u16 {
    match mode {
        ProxyMode::Squid => squid::PORT,
        ProxyMode::Mitm => mitm::PORT,
    }
}

/// Compose profile that enables the proxy for `mode`, if any.
pub open spec fn service_profile(mode: ProxyMode) -> Option<Seq<char>> {
    match mode {
        ProxyMode::Squid => None,
        ProxyMode::Mitm => Some(mitm::COMPOSE_PROFILE@),
    }
}

/// `http://<container>:<port>`.
pub open spec fn service_url(mode: ProxyMode) -> Seq<char> {
    "http://"@ + service_container_name(mode) + ":"@ + decimal(service_port(mode) as nat)
}

/// `http://<container>:<port>` as a string.
pub fn proxy_url_of(container: &str, port: u16) -> (r: String)
    ensures
        r@ == "http://"@ + container@ + ":"@ + decimal(port as nat),
{
    let mut r = owned("http://");
    push_str(&mut r, container);
    push_str(&mut r, ":");
    let p = decimal_string(port as u64);
    push_str(&mut r, p.as_str());
    r
}

/// The proxy service selected by a proxy mode.
pub struct ModeService {
    pub mode: ProxyMode,
}

impl ProxyService for ModeService {
    fn mode(&self) -> (r: ProxyMode)
        ensures
            r == self.mode,
    {
        self.mode
    }

    fn container_name(&self) -> (r: &'static str)
        ensures
            r@ == service_container_name(self.mode),
    {
        match self.mode {
            ProxyMode::Squid => squid::CONTAINER_NAME,
            ProxyMode::Mitm => mitm::CONTAINER_NAME,
        }
    }

    fn port(&self) -> (r: u16)
        ensures
            r == service_port(self.mode),
    {
        match self.mode {
            ProxyMode::Squid => squid::PORT,
            ProxyMode::Mitm => mitm::PORT,
        }
    }

    fn compose_profile(&self) -> (r: Option<&'static str>)
        ensures
            match r {
                Some(p) => service_profile(self.mode) == Some(p@),
                None => service_profile(self.mode) is None,
            },
    {
        match self.mode {
            ProxyMode::Squid => None,
            ProxyMode::Mitm => Some(mitm::COMPOSE_PROFILE),
        }
    }

    fn proxy_url(&self) -> (r: String)
        ensures
            r@ == service_url(self.mode),
    {
        let name = self.container_name();
        proxy_url_of(name, self.port())
    }
}

/// The proxy service for `mode`.
pub fn service(mode: ProxyMode) -> (r: ModeService)
    ensures
        r.mode == mode,
{
    ModeService { mode }
}

// ---------------------------------------------------------------------------
// Secret material
// ---------------------------------------------------------------------------

/// What reading one secret source gave: its raw text, or a description of
/// why it could not be read. Reading happens at the edge of the program;
/// renderers look secrets up in a list of these.
#[derive(Debug, PartialEq, Eq)]
pub struct SecretReading {
    pub source: SecretSource,
    pub outcome: Result<String, String>,
}

/// The view of a reading's outcome.
pub open spec fn outcome_view(o: Result<String, String>) -> Result<Seq<char>, Seq<char>> {
    match o {
        Ok(v) => Ok(v@),
        Err(m) => Err(m@),
    }
}

/// `i` is the first reading of `src` in `table`.
pub open spec fn first_reading(table: Seq<SecretReading>, src: SecretSourceView, i: int) -> bool {
    &&& 0 <= i < table.len()
    &&& table[i].source@ == src
    &&& forall|j: int| 0 <= j < i ==> table[j].source@ != src
}

/// `table` holds a reading of `src`.
pub open spec fn has_reading(table: Seq<SecretReading>, src: SecretSourceView) -> bool {
    exists|i: int| 0 <= i < table.len() && table[i].source@ == src
}

/// `table` holds a reading of every secret source in `secrets`.
pub open spec fn covers(table: Seq<SecretReading>, secrets: Seq<SecretInjection>) -> bool {
    forall|k: int| 0 <= k < secrets.len() ==> has_reading(table, #[trigger] secrets[k].value_from@)
}

/// `value` without trailing `\r` and `\n` characters.
pub open spec fn trim_line_endings(value: Seq<char>) -> Seq<char>
    decreases value.len(),
{
    if value.len() > 0 && (value.last() == '\r' || value.last() == '\n') {
        trim_line_endings(value.drop_last())
    } else {
        value
    }
}

/// The secret text for `src` according to its first reading in `table`:
/// an environment value as read, a file's contents without trailing line
/// endings, or the read failure.
pub open spec fn secret_text(table: Seq<SecretReading>, src: SecretSourceView) -> Result<
    Seq<char>,
    Seq<char>,
> {
    let i = choose|i: int| first_reading(table, src, i);
    match outcome_view(table[i].outcome) {
        Err(m) => Err(m),
        Ok(v) => match src {
            SecretSourceView::Env(_) => Ok(v),
            SecretSourceView::File(_) => Ok(trim_line_endings(v)),
        },
    }
}

/// Removes trailing `\r` and `\n` characters, and nothing else.
pub fn trim_secret_trailing_newlines(value: &str) -> (r: String)
    ensures
        r@ == trim_line_endings(value@),
{
    let cs = chars_of(value);
    let mut n: usize = cs.len();
    assert(cs@.take(n as int) =~= value@);
    while n > 0 && (cs[n - 1] == '\r' || cs[n - 1] == '\n')
        invariant
            n <= cs@.len(),
            trim_line_endings(value@) == trim_line_endings(cs@.take(n as int)),
        decreases n,
    {
        assert(cs@.take(n as int).drop_last() =~= cs@.take(n - 1));
        n = n - 1;
    }
    string_of_range(&cs, 0, n)
}

/// Whether two secret sources are the same.
pub fn same_source(a: &SecretSource, b: &SecretSource) -> (r: bool)
    ensures
        r == (a@ == b@),
{
    match (a, b) {
        (SecretSource::Env(x), SecretSource::Env(y)) => str_eq(x.as_str(), y.as_str()),
        (SecretSource::File(x), SecretSource::File(y)) => str_eq(x.as_str(), y.as_str()),
        _ => false,
    }
}

/// Looks up the secret text for `src` (see [`secret_text`]).
pub fn lookup_secret(table: &[SecretReading], src: &SecretSource) -> (r: Result<String, String>)
    requires
        has_reading(table@, src@),
    ensures
        outcome_view(r) == secret_text(table@, src@),
{
    let mut i: usize = 0;
    while i < table.len()
        invariant
            i <= table@.len(),
            has_reading(table@, src@),
            forall|j: int| 0 <= j < i ==> table@[j].source@ != src@,
        decreases table.len() - i,
    {
        if same_source(&table[i].source, src) {
            proof {
                let k = choose|k: int| first_reading(table@, src@, k);
                assert(first_reading(table@, src@, i as int));
                if k < i {
                } else if k > i {
                }
                assert(k == i);
            }
            return match &table[i].outcome {
                Err(m) => Err(m.clone()),
                Ok(v) => match src {
                    SecretSource::Env(_) => Ok(v.clone()),
                    SecretSource::File(_) => Ok(trim_secret_trailing_newlines(v.as_str())),
                },
            };
        }
        i = i + 1;
    }
    proof {
        let k = choose|k: int| 0 <= k < table@.len() && table@[k].source@ == src@;
        assert(table@[k].source@ != src@);
    }
    vstd::pervasive::unreached()
}

// ---------------------------------------------------------------------------
// Header injections
// ---------------------------------------------------------------------------

pub const VALUE_PLACEHOLDER: &'static str = "{{value}}";

/// Why a header injection could not be built.
pub enum InjectionErrorView {
    EmptyHeaderName,
    InvalidHeaderName(Seq<char>),
    MissingValuePlaceholder { host: Seq<char>, header: Seq<char> },
    ReadEnv { name: Seq<char>, message: Seq<char> },
    ReadFile { path: Seq<char>, message: Seq<char> },
}

/// Why a header injection could not be built.
#[derive(Debug, PartialEq, Eq)]
pub enum InjectionError {
    EmptyHeaderName,
    InvalidHeaderName(String),
    MissingValuePlaceholder { host: String, header: String },
    ReadEnv { name: String, message: String },
    ReadFile { path: String, message: String },
}

impl View for InjectionError {
    type V = InjectionErrorView;

    open spec fn view(&self) -> InjectionErrorView {
        match self {
            InjectionError::EmptyHeaderName => InjectionErrorView::EmptyHeaderName,
            InjectionError::InvalidHeaderName(h) => InjectionErrorView::InvalidHeaderName(h@),
            InjectionError::MissingValuePlaceholder { host, header } =>
                InjectionErrorView::MissingValuePlaceholder { host: host@, header: header@ },
            InjectionError::ReadEnv { name, message } => InjectionErrorView::ReadEnv {
                name: name@,
                message: message@,
            },
            InjectionError::ReadFile { path, message } => InjectionErrorView::ReadFile {
                path: path@,
                message: message@,
            },
        }
    }
}

/// A header name is non-empty and holds no whitespace and no `:`.
pub open spec fn header_name_check(header: Seq<char>) -> Result<(), InjectionErrorView> {
    if header.len() == 0 {
        Err(InjectionErrorView::EmptyHeaderName)
    } else if has_ws(header) || header.contains(':') {
        Err(InjectionErrorView::InvalidHeaderName(header))
    } else {
        Ok(())
    }
}

/// The header value a secret injection produces, or the first check it
/// fails: the header name, then the `{{value}}` placeholder, then reading
/// the secret.
pub open spec fn injection_value(s: SecretInjection, table: Seq<SecretReading>) -> Result<
    Seq<char>,
    InjectionErrorView,
> {
    match header_name_check(s.header@) {
        Err(e) => Err(e),
        Ok(()) => if !contains_seq(s.value_template@, VALUE_PLACEHOLDER@) {
            Err(
                InjectionErrorView::MissingValuePlaceholder { host: s.host@, header: s.header@ },
            )
        } else {
            match secret_text(table, s.value_from@) {
                Err(m) => match s.value_from@ {
                    SecretSourceView::Env(name) => Err(
                        InjectionErrorView::ReadEnv { name, message: m },
                    ),
                    SecretSourceView::File(path) => Err(
                        InjectionErrorView::ReadFile { path, message: m },
                    ),
                },
                Ok(raw) => Ok(replace_all(s.value_template@, VALUE_PLACEHOLDER@, raw)),
            }
        },
    }
}

/// Checks a secret header name: non-empty, without whitespace or `:`.
pub fn validate_header_name(header: &str) -> (r: Result<(), InjectionError>)
    ensures
        match r {
            Ok(()) => header_name_check(header@) == Ok::<(), InjectionErrorView>(()),
            Err(e) => header_name_check(header@) == Err::<(), InjectionErrorView>(e@),
        },
{
    if is_empty_str(header) {
        return Err(InjectionError::EmptyHeaderName);
    }
    if has_ws_str(header) || crate::text::contains_char(header, ':') {
        return Err(InjectionError::InvalidHeaderName(owned(header)));
    }
    Ok(())
}

/// Builds the header value for one secret injection (see
/// [`injection_value`]).
pub fn header_injection_value(secret: &SecretInjection, table: &[SecretReading]) -> (r: Result<
    String,
    InjectionError,
>)
    requires
        has_reading(table@, secret.value_from@),
    ensures
        match r {
            Ok(v) => injection_value(*secret, table@) == Ok::<Seq<char>, InjectionErrorView>(v@),
            Err(e) => injection_value(*secret, table@) == Err::<Seq<char>, InjectionErrorView>(e@),
        },
{
    match validate_header_name(secret.header.as_str()) {
        Err(e) => return Err(e),
        Ok(()) => {},
    }
    if !contains_str(secret.value_template.as_str(), VALUE_PLACEHOLDER) {
        return Err(
            InjectionError::MissingValuePlaceholder {
                host: owned(secret.host.as_str()),
                header: secret.header.clone(),
            },
        );
    }
    match lookup_secret(table, &secret.value_from) {
        Err(m) => match &secret.value_from {
            SecretSource::Env(name) => Err(InjectionError::ReadEnv { name: name.clone(), message: m }),
            SecretSource::File(path) => Err(
                InjectionError::ReadFile { path: path.clone(), message: m },
            ),
        },
        Ok(raw) => {
            proof {
                reveal_strlit("{{value}}");
            }
            Ok(replace_str(secret.value_template.as_str(), VALUE_PLACEHOLDER, raw.as_str()))
        },
    }
}

} // verus!
