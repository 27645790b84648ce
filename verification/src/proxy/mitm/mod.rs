//! mitmproxy policy rendering and service metadata.
//!
//! The policy says, per registered container and globally, which domains
//! are allowed and which headers are injected. Header values never appear in
//! the policy itself: each injected header names a secret
//! (`${CASTORS_SECRET_<n>}`) whose value lives in a separate bundle, so the
//! policy can be shown and logged while the bundle stays private. The JSON
//! encoding of both documents happens at the edge of the program.

use vstd::prelude::*;

use crate::config::merge::host_views;
use crate::config::schema::{Host, ProxyMode, SecretInjection};
use crate::config::ResolvedConfig;
use crate::proxy::{
    covers, header_injection_value, injection_value, InjectionError, InjectionErrorView,
    ModeService, ProxyService, SecretReading,
};
use crate::sorted::{
    as_map, lemma_as_map_at, lemma_empty_sorted, sorted_by_key, upsert, Keyed, SpecKey,
};
use crate::text::{decimal, decimal_string, owned, push_str, str_eq};

verus! {

pub const CONTAINER_NAME: &'static str = "castors-infra-mitm";

pub const PORT: u16 = 8080;

pub const COMPOSE_PROFILE: &'static str = "mitm";

/// The mitmproxy service.
pub struct MitmProxyService;

impl ProxyService for MitmProxyService {
    fn mode(&self) -> (r: ProxyMode)
        ensures
            r == ProxyMode::Mitm,
    {
        ProxyMode::Mitm
    }

    fn container_name(&self) -> (r: &'static str)
        ensures
            r@ == CONTAINER_NAME@,
    {
        CONTAINER_NAME
    }

    fn port(&self) -> (r: u16)
        ensures
            r == PORT,
    {
        PORT
    }

    fn compose_profile(&self) -> (r: Option<&'static str>)
        ensures
            r matches Some(p) && p@ == COMPOSE_PROFILE@,
    {
        Some(COMPOSE_PROFILE)
    }

    fn proxy_url(&self) -> (r: String)
        ensures
            r@ == crate::proxy::service_url(ProxyMode::Mitm),
    {
        ModeService { mode: ProxyMode::Mitm }.proxy_url()
    }
}

/// One registered castor as the policy sees it.
#[derive(Debug, PartialEq, Eq)]
pub struct ContainerPolicy {
    pub name: String,
    pub ips: Vec<String>,
    pub config: ResolvedConfig,
}

/// The two documents the proxy reads: the policy and the secret bundle.
#[derive(Debug, PartialEq, Eq)]
pub struct RenderedPolicy {
    pub policy_json: String,
    pub secrets_json: String,
}

// ---------------------------------------------------------------------------
// Errors
// ---------------------------------------------------------------------------

/// Why a MITM policy could not be rendered.
pub enum MitmErrorView {
    SecretHostNotAllowed(Seq<char>),
    EmptyHeaderName,
    InvalidHeaderName(Seq<char>),
    MissingValuePlaceholder { host: Seq<char>, header: Seq<char> },
    ReadEnv { name: Seq<char>, message: Seq<char> },
    ReadFile { path: Seq<char>, message: Seq<char> },
    SerializeSecrets(Seq<char>),
    SerializePolicy(Seq<char>),
}

/// Why a MITM policy could not be rendered. The two serialization failures
/// come from encoding the documents, which happens outside this library.
#[derive(Debug, PartialEq, Eq)]
pub enum MitmPolicyError {
    SecretHostNotAllowed(Host),
    EmptyHeaderName,
    InvalidHeaderName(String),
    MissingValuePlaceholder { host: Host, header: String },
    ReadEnv { name: String, message: String },
    ReadFile { path: String, message: String },
    SerializeSecrets(String),
    SerializePolicy(String),
}

impl View for MitmPolicyError {
    type V = MitmErrorView;

    open spec fn view(&self) -> MitmErrorView {
        match self {
            MitmPolicyError::SecretHostNotAllowed(h) => MitmErrorView::SecretHostNotAllowed(h@),
            MitmPolicyError::EmptyHeaderName => MitmErrorView::EmptyHeaderName,
            MitmPolicyError::InvalidHeaderName(h) => MitmErrorView::InvalidHeaderName(h@),
            MitmPolicyError::MissingValuePlaceholder { host, header } =>
                MitmErrorView::MissingValuePlaceholder { host: host@, header: header@ },
            MitmPolicyError::ReadEnv { name, message } => MitmErrorView::ReadEnv {
                name: name@,
                message: message@,
            },
            MitmPolicyError::ReadFile { path, message } => MitmErrorView::ReadFile {
                path: path@,
                message: message@,
            },
            MitmPolicyError::SerializeSecrets(m) => MitmErrorView::SerializeSecrets(m@),
            MitmPolicyError::SerializePolicy(m) => MitmErrorView::SerializePolicy(m@),
        }
    }
}

/// The MITM error for a failed header injection.
pub open spec fn from_injection(e: InjectionErrorView) -> MitmErrorView {
    match e {
        InjectionErrorView::EmptyHeaderName => MitmErrorView::EmptyHeaderName,
        InjectionErrorView::InvalidHeaderName(h) => MitmErrorView::InvalidHeaderName(h),
        InjectionErrorView::MissingValuePlaceholder { host, header } =>
            MitmErrorView::MissingValuePlaceholder { host, header },
        InjectionErrorView::ReadEnv { name, message } => MitmErrorView::ReadEnv { name, message },
        InjectionErrorView::ReadFile { path, message } => MitmErrorView::ReadFile {
            path,
            message,
        },
    }
}

/// The text of a MITM error.
pub open spec fn mitm_error_message(e: MitmErrorView) -> Seq<char> {
    match e {
        MitmErrorView::SecretHostNotAllowed(h) => "secret injection for host '"@ + h
            + "' requires that host to also appear in allowed_hosts"@,
        MitmErrorView::EmptyHeaderName => "secret header name must not be empty"@,
        MitmErrorView::InvalidHeaderName(h) => "secret header name '"@ + h
            + "' must not contain whitespace or ':'"@,
        MitmErrorView::MissingValuePlaceholder { host, header } => "secret header '"@ + header
            + "' for host '"@ + host + "' is missing the `{{value}}` placeholder in value_template"@,
        MitmErrorView::ReadEnv { name, .. } => "failed to read secret from env var '"@ + name
            + "'"@,
        MitmErrorView::ReadFile { path, .. } => "failed to read secret file at "@ + path,
        MitmErrorView::SerializeSecrets(_) => "failed to serialize MITM secret bundle"@,
        MitmErrorView::SerializePolicy(_) => "failed to serialize MITM policy"@,
    }
}

impl MitmPolicyError {
    /// The human-readable text of this error.
    pub fn to_string(&self) -> (r: String)
        ensures
            r@ == mitm_error_message(self@),
    {
        let mut r = String::new();
        match self {
            MitmPolicyError::SecretHostNotAllowed(h) => {
                push_str(&mut r, "secret injection for host '");
                push_str(&mut r, h.as_str());
                push_str(&mut r, "' requires that host to also appear in allowed_hosts");
            },
            MitmPolicyError::EmptyHeaderName => {
                push_str(&mut r, "secret header name must not be empty");
            },
            MitmPolicyError::InvalidHeaderName(h) => {
                push_str(&mut r, "secret header name '");
                push_str(&mut r, h.as_str());
                push_str(&mut r, "' must not contain whitespace or ':'");
            },
            MitmPolicyError::MissingValuePlaceholder { host, header } => {
                push_str(&mut r, "secret header '");
                push_str(&mut r, header.as_str());
                push_str(&mut r, "' for host '");
                push_str(&mut r, host.as_str());
                push_str(&mut r, "' is missing the `{{value}}` placeholder in value_template");
            },
            MitmPolicyError::ReadEnv { name, .. } => {
                push_str(&mut r, "failed to read secret from env var '");
                push_str(&mut r, name.as_str());
                push_str(&mut r, "'");
            },
            MitmPolicyError::ReadFile { path, .. } => {
                push_str(&mut r, "failed to read secret file at ");
                push_str(&mut r, path.as_str());
            },
            MitmPolicyError::SerializeSecrets(_) => {
                push_str(&mut r, "failed to serialize MITM secret bundle");
            },
            MitmPolicyError::SerializePolicy(_) => {
                push_str(&mut r, "failed to serialize MITM policy");
            },
        }
        r
    }
}

fn mitm_error_of(e: InjectionError, host: &Host) -> (r: MitmPolicyError)
    requires
        e matches InjectionError::MissingValuePlaceholder { host: h, .. } ==> h@ == host@,
    ensures
        r@ == from_injection(e@),
{
    match e {
        InjectionError::EmptyHeaderName => MitmPolicyError::EmptyHeaderName,
        InjectionError::InvalidHeaderName(h) => MitmPolicyError::InvalidHeaderName(h),
        InjectionError::MissingValuePlaceholder { host: _, header } => {
            MitmPolicyError::MissingValuePlaceholder { host: host.clone(), header }
        },
        InjectionError::ReadEnv { name, message } => MitmPolicyError::ReadEnv { name, message },
        InjectionError::ReadFile { path, message } => MitmPolicyError::ReadFile { path, message },
    }
}

// ---------------------------------------------------------------------------
// Policy structure
// ---------------------------------------------------------------------------

/// Requests to `host` get header `header` set to the secret named by
/// `secret` (a `${NAME}` reference).
#[derive(Debug, PartialEq, Eq)]
pub struct HeaderRef {
    pub host: String,
    pub header: String,
    pub secret: String,
}

impl Keyed for HeaderRef {
    open spec fn key_spec(&self) -> SpecKey {
        (self.host@, self.header@)
    }

    fn key_first(&self) -> (r: &str) {
        self.host.as_str()
    }

    fn key_second(&self) -> (r: &str) {
        self.header.as_str()
    }
}

/// One named secret of the bundle.
#[derive(Debug, PartialEq, Eq)]
pub struct SecretValue {
    pub name: String,
    pub value: String,
}

/// The policy of one registered container.
#[derive(Debug, PartialEq, Eq)]
pub struct ContainerEntry {
    pub name: String,
    pub ips: Vec<String>,
    pub allow_domains: Vec<String>,
    pub inject_headers: Vec<HeaderRef>,
}

impl Keyed for ContainerEntry {
    open spec fn key_spec(&self) -> SpecKey {
        (self.name@, Seq::empty())
    }

    fn key_first(&self) -> (r: &str) {
        self.name.as_str()
    }

    fn key_second(&self) -> (r: &str) {
        proof {
            reveal_strlit("");
        }
        ""
    }
}

/// The whole MITM policy (default deny) with its secret bundle: containers
/// and headers are kept sorted by key, one entry per key.
#[derive(Debug, PartialEq, Eq)]
pub struct MitmPolicy {
    pub containers: Vec<ContainerEntry>,
    pub allow_domains: Vec<String>,
    pub inject_headers: Vec<HeaderRef>,
    pub secrets: Vec<SecretValue>,
}

/// The headers of a header list, by `(host, header)`.
pub open spec fn header_map(v: Seq<HeaderRef>) -> Map<SpecKey, Seq<char>> {
    as_map(v).map_values(|h: HeaderRef| h.secret@)
}

/// The abstract policy of one container: addresses, allowed domains and
/// injected headers.
pub struct ContainerView {
    pub ips: Seq<Seq<char>>,
    pub allow_domains: Seq<Seq<char>>,
    pub headers: Map<SpecKey, Seq<char>>,
}

pub open spec fn container_view(e: ContainerEntry) -> ContainerView {
    ContainerView {
        ips: e.ips.deep_view(),
        allow_domains: e.allow_domains.deep_view(),
        headers: header_map(e.inject_headers@),
    }
}

/// The containers of a container list, by name.
pub open spec fn container_map(v: Seq<ContainerEntry>) -> Map<Seq<char>, ContainerView> {
    Map::new(
        |n: Seq<char>| as_map(v).contains_key((n, Seq::empty())),
        |n: Seq<char>| container_view(as_map(v)[(n, Seq::empty())]),
    )
}

/// The bundle as `(name, value)` pairs.
pub open spec fn secret_pairs(v: Seq<SecretValue>) -> Seq<(Seq<char>, Seq<char>)> {
    v.map_values(|s: SecretValue| (s.name@, s.value@))
}

/// The host strings of an allowlist, in order.
pub open spec fn domains(hosts: Seq<Host>) -> Seq<Seq<char>> {
    hosts.map_values(|h: Host| h@)
}

/// `CASTORS_SECRET_<idx>`.
pub open spec fn secret_name(idx: nat) -> Seq<char> {
    "CASTORS_SECRET_"@ + decimal(idx)
}

/// `${CASTORS_SECRET_<idx>}`.
pub open spec fn secret_ref(idx: nat) -> Seq<char> {
    "${"@ + secret_name(idx) + "}"@
}

/// The headers injected for one configuration and the secrets they name,
/// numbered from `start`: every secret, in order, must be for an allowed
/// host and pass the injection checks; a later rule for the same host and
/// header replaces an earlier one in the headers, while every secret still
/// takes a number. Or the first failure.
pub open spec fn header_rules(
    allowed: Seq<Host>,
    secrets: Seq<SecretInjection>,
    table: Seq<SecretReading>,
    start: nat,
) -> Result<(Map<SpecKey, Seq<char>>, Seq<(Seq<char>, Seq<char>)>), MitmErrorView>
    decreases secrets.len(),
{
    if secrets.len() == 0 {
        Ok((Map::empty(), Seq::empty()))
    } else {
        match header_rules(allowed, secrets.drop_last(), table, start) {
            Err(e) => Err(e),
            Ok(acc) => {
                let s = secrets.last();
                let idx = start + acc.1.len();
                if !host_views(allowed).contains(s.host@) {
                    Err(MitmErrorView::SecretHostNotAllowed(s.host@))
                } else {
                    match injection_value(s, table) {
                        Err(e) => Err(from_injection(e)),
                        Ok(v) => Ok(
                            (
                                acc.0.insert((s.host@, s.header@), secret_ref(idx)),
                                acc.1.push((secret_name(idx), v)),
                            ),
                        ),
                    }
                }
            },
        }
    }
}

/// The container policies, in order, after the global secrets `vals`:
/// each container's secrets are numbered after everything before it, and a
/// later container with the same name replaces an earlier one. Returns the
/// containers by name and the whole bundle so far.
pub open spec fn containers_policy(
    cs: Seq<ContainerPolicy>,
    table: Seq<SecretReading>,
    vals: Seq<(Seq<char>, Seq<char>)>,
) -> Result<(Map<Seq<char>, ContainerView>, Seq<(Seq<char>, Seq<char>)>), MitmErrorView>
    decreases cs.len(),
{
    if cs.len() == 0 {
        Ok((Map::empty(), vals))
    } else {
        match containers_policy(cs.drop_last(), table, vals) {
            Err(e) => Err(e),
            Ok(acc) => {
                let c = cs.last();
                match header_rules(c.config.allowed_hosts@, c.config.secrets@, table, acc.1.len()) {
                    Err(e) => Err(e),
                    Ok(h) => Ok(
                        (
                            acc.0.insert(
                                c.name@,
                                ContainerView {
                                    ips: c.ips.deep_view(),
                                    allow_domains: domains(c.config.allowed_hosts@),
                                    headers: h.0,
                                },
                            ),
                            acc.1 + h.1,
                        ),
                    ),
                }
            },
        }
    }
}

/// The abstract policy: containers by name, global domains and headers, and
/// the secret bundle.
pub struct PolicyView {
    pub containers: Map<Seq<char>, ContainerView>,
    pub allow_domains: Seq<Seq<char>>,
    pub headers: Map<SpecKey, Seq<char>>,
    pub secrets: Seq<(Seq<char>, Seq<char>)>,
}

/// The policy for the global configuration and the registered containers:
/// global secrets are numbered first, then each container's in order.
pub open spec fn mitm_policy(
    global: ResolvedConfig,
    cs: Seq<ContainerPolicy>,
    table: Seq<SecretReading>,
) -> Result<PolicyView, MitmErrorView> {
    match header_rules(global.allowed_hosts@, global.secrets@, table, 0) {
        Err(e) => Err(e),
        Ok(g) => match containers_policy(cs, table, g.1) {
            Err(e) => Err(e),
            Ok(c) => Ok(
                PolicyView {
                    containers: c.0,
                    allow_domains: domains(global.allowed_hosts@),
                    headers: g.0,
                    secrets: c.1,
                },
            ),
        },
    }
}

/// `p` is the policy `v`, with its lists sorted by key.
pub open spec fn policy_matches(p: MitmPolicy, v: PolicyView) -> bool {
    &&& sorted_by_key(p.containers@)
    &&& forall|i: int| 0 <= i < p.containers@.len() ==> sorted_by_key(
        #[trigger] p.containers@[i].inject_headers@,
    )
    &&& container_map(p.containers@) == v.containers
    &&& p.allow_domains.deep_view() == v.allow_domains
    &&& sorted_by_key(p.inject_headers@)
    &&& header_map(p.inject_headers@) == v.headers
    &&& secret_pairs(p.secrets@) == v.secrets
}

// ---------------------------------------------------------------------------
// Rendering
// ---------------------------------------------------------------------------

proof fn lemma_header_rules_prefix(
    allowed: Seq<Host>,
    secrets: Seq<SecretInjection>,
    table: Seq<SecretReading>,
    start: nat,
    k: int,
)
    requires
        0 <= k <= secrets.len(),
        header_rules(allowed, secrets.take(k), table, start) is Err,
    ensures
        header_rules(allowed, secrets, table, start) == header_rules(
            allowed,
            secrets.take(k),
            table,
            start,
        ),
    decreases secrets.len(),
{
    if k == secrets.len() {
        assert(secrets.take(k) =~= secrets);
    } else {
        assert(secrets.drop_last().take(k) =~= secrets.take(k));
        lemma_header_rules_prefix(allowed, secrets.drop_last(), table, start, k);
    }
}

proof fn lemma_containers_policy_prefix(
    cs: Seq<ContainerPolicy>,
    table: Seq<SecretReading>,
    vals: Seq<(Seq<char>, Seq<char>)>,
    k: int,
)
    requires
        0 <= k <= cs.len(),
        containers_policy(cs.take(k), table, vals) is Err,
    ensures
        containers_policy(cs, table, vals) == containers_policy(cs.take(k), table, vals),
    decreases cs.len(),
{
    if k == cs.len() {
        assert(cs.take(k) =~= cs);
    } else {
        assert(cs.drop_last().take(k) =~= cs.take(k));
        lemma_containers_policy_prefix(cs.drop_last(), table, vals, k);
    }
}

/// Every element of a sorted sequence after an upsert of `x` is `x` or an
/// element from before.
proof fn lemma_upsert_elements<T: Keyed>(before: Seq<T>, after: Seq<T>, x: T, i: int)
    requires
        sorted_by_key(before),
        sorted_by_key(after),
        as_map(after) == as_map(before).insert(x.key_spec(), x),
        0 <= i < after.len(),
    ensures
        after[i] == x || exists|j: int| 0 <= j < before.len() && before[j] == after[i],
{
    lemma_as_map_at(after, i);
    let k = after[i].key_spec();
    if k != x.key_spec() {
        assert(as_map(before).contains_key(k));
        let j = crate::sorted::index_of_key(before, k);
        assert(as_map(before)[k] == before[j]);
    }
}

/// Whether `h` is one of the allowed hosts.
fn host_allowed(hosts: &Vec<Host>, h: &Host) -> (r: bool)
    ensures
        r == host_views(hosts@).contains(h@),
{
    let mut i: usize = 0;
    while i < hosts.len()
        invariant
            i <= hosts@.len(),
            forall|j: int| 0 <= j < i ==> hosts@[j]@ != h@,
        decreases hosts.len() - i,
    {
        if str_eq(hosts[i].as_str(), h.as_str()) {
            assert(host_views(hosts@).contains(h@));
            return true;
        }
        i = i + 1;
    }
    false
}

/// The host strings of an allowlist, in order.
fn hosts_json(hosts: &Vec<Host>) -> (r: Vec<String>)
    ensures
        r.deep_view() == domains(hosts@),
{
    let mut r: Vec<String> = Vec::new();
    let mut i: usize = 0;
    while i < hosts.len()
        invariant
            i <= hosts@.len(),
            r.deep_view() == domains(hosts@.take(i as int)),
        decreases hosts.len() - i,
    {
        let ghost before = r.deep_view();
        r.push(owned(hosts[i].as_str()));
        assert(r.deep_view() =~= before.push(hosts@[i as int]@));
        assert(domains(hosts@.take(i + 1)) =~= domains(hosts@.take(i as int)).push(hosts@[i as int]@));
        i = i + 1;
    }
    assert(hosts@.take(hosts@.len() as int) =~= hosts@);
    r
}

fn clone_ips(v: &Vec<String>) -> (r: Vec<String>)
    ensures
        r.deep_view() == v.deep_view(),
{
    let mut r: Vec<String> = Vec::new();
    let mut i: usize = 0;
    while i < v.len()
        invariant
            i <= v@.len(),
            r.deep_view() == v.deep_view().take(i as int),
        decreases v.len() - i,
    {
        let ghost before = r.deep_view();
        r.push(v[i].clone());
        assert(r.deep_view() =~= before.push(v[i as int]@));
        assert(v.deep_view().take(i + 1) =~= v.deep_view().take(i as int).push(v[i as int]@));
        i = i + 1;
    }
    assert(v.deep_view().take(v@.len() as int) =~= v.deep_view());
    r
}

/// The headers injected for one configuration (see [`header_rules`]); the
/// secrets they name are appended to `secrets`, numbered from its length.
fn render_header_rules(
    config: &ResolvedConfig,
    table: &[SecretReading],
    secrets: &mut Vec<SecretValue>,
) -> (r: Result<Vec<HeaderRef>, MitmPolicyError>)
    requires
        covers(table@, config.secrets@),
    ensures
        match r {
            Ok(h) => match header_rules(
                config.allowed_hosts@,
                config.secrets@,
                table@,
                old(secrets)@.len(),
            ) {
                Ok(acc) => {
                    &&& sorted_by_key(h@)
                    &&& header_map(h@) == acc.0
                    &&& secret_pairs(final(secrets)@) == secret_pairs(old(secrets)@) + acc.1
                },
                Err(_) => false,
            },
            Err(e) => header_rules(config.allowed_hosts@, config.secrets@, table@, old(secrets)@.len())
                == Err::<(Map<SpecKey, Seq<char>>, Seq<(Seq<char>, Seq<char>)>), MitmErrorView>(
                e@,
            ),
        },
{
    let ghost start = secrets@.len();
    let ghost orig = secret_pairs(secrets@);
    let mut out: Vec<HeaderRef> = Vec::new();
    proof {
        lemma_empty_sorted(out@);
        assert(header_map(out@) =~= Map::<SpecKey, Seq<char>>::empty());
        assert(config.secrets@.take(0) =~= Seq::<SecretInjection>::empty());
        assert(secret_pairs(secrets@) =~= orig + Seq::<(Seq<char>, Seq<char>)>::empty());
    }
    let mut k: usize = 0;
    while k < config.secrets.len()
        invariant
            k <= config.secrets@.len(),
            covers(table@, config.secrets@),
            start == old(secrets)@.len(),
            orig == secret_pairs(old(secrets)@),
            sorted_by_key(out@),
            match header_rules(config.allowed_hosts@, config.secrets@.take(k as int), table@, start) {
                Ok(acc) => {
                    &&& header_map(out@) == acc.0
                    &&& secret_pairs(secrets@) == orig + acc.1
                },
                Err(_) => false,
            },
        decreases config.secrets.len() - k,
    {
        let secret = &config.secrets[k];
        let ghost pre = config.secrets@.take(k as int);
        assert(config.secrets@.take(k + 1).drop_last() =~= pre);
        assert(config.secrets@.take(k + 1).last() == config.secrets@[k as int]);
        assert(crate::proxy::has_reading(table@, config.secrets@[k as int].value_from@));
        if !host_allowed(&config.allowed_hosts, &secret.host) {
            proof {
                lemma_header_rules_prefix(
                    config.allowed_hosts@,
                    config.secrets@,
                    table@,
                    start,
                    k + 1,
                );
            }
            return Err(MitmPolicyError::SecretHostNotAllowed(secret.host.clone()));
        }
        match header_injection_value(secret, table) {
            Err(e) => {
                let err = mitm_error_of(e, &secret.host);
                proof {
                    lemma_header_rules_prefix(
                        config.allowed_hosts@,
                        config.secrets@,
                        table@,
                        start,
                        k + 1,
                    );
                }
                return Err(err);
            },
            Ok(v) => {
                let ghost acc = header_rules(config.allowed_hosts@, pre, table@, start)->Ok_0;
                let idx = secrets.len();
                assert(secret_pairs(secrets@).len() == secrets@.len());
                assert(idx == start + acc.1.len());
                let mut name = owned("CASTORS_SECRET_");
                let d = decimal_string(idx as u64);
                push_str(&mut name, d.as_str());
                let mut reference = owned("${");
                push_str(&mut reference, name.as_str());
                push_str(&mut reference, "}");
                let entry = HeaderRef {
                    host: owned(secret.host.as_str()),
                    header: secret.header.clone(),
                    secret: reference,
                };
                let ghost ev = entry;
                let ghost before_map = as_map(out@);
                upsert(&mut out, entry);
                assert(header_map(out@) =~= acc.0.insert(
                    (secret.host@, secret.header@),
                    secret_ref(idx as nat),
                ));
                let ghost before_pairs = secret_pairs(secrets@);
                let ghost nv = name@;
                let ghost vv = v@;
                secrets.push(SecretValue { name, value: v });
                assert(secret_pairs(secrets@) =~= before_pairs.push((nv, vv)));
                assert(secret_pairs(secrets@) =~= orig + acc.1.push((secret_name(idx as nat), vv)));
            },
        }
        k = k + 1;
    }
    assert(config.secrets@.take(config.secrets@.len() as int) =~= config.secrets@);
    Ok(out)
}

/// Renders the MITM policy for the global configuration and the
/// registered containers (see [`mitm_policy`]). Secret material comes from
/// `table`.
pub fn render_policy(
    global: &ResolvedConfig,
    containers: &[ContainerPolicy],
    table: &[SecretReading],
) -> (r: Result<MitmPolicy, MitmPolicyError>)
    requires
        covers(table@, global.secrets@),
        forall|i: int|
            0 <= i < containers@.len() ==> covers(table@, #[trigger] containers@[i].config.secrets@),
    ensures
        match r {
            Ok(p) => match mitm_policy(*global, containers@, table@) {
                Ok(v) => policy_matches(p, v),
                Err(_) => false,
            },
            Err(e) => mitm_policy(*global, containers@, table@) == Err::<PolicyView, MitmErrorView>(
                e@,
            ),
        },
{
    let mut secrets: Vec<SecretValue> = Vec::new();
    assert(secret_pairs(secrets@) =~= Seq::<(Seq<char>, Seq<char>)>::empty());
    let global_headers = match render_header_rules(global, table, &mut secrets) {
        Ok(h) => h,
        Err(e) => return Err(e),
    };
    let ghost g = header_rules(global.allowed_hosts@, global.secrets@, table@, 0)->Ok_0;
    assert(secret_pairs(secrets@) =~= g.1);
    let mut entries: Vec<ContainerEntry> = Vec::new();
    proof {
        lemma_empty_sorted(entries@);
        assert(container_map(entries@) =~= Map::<Seq<char>, ContainerView>::empty());
        assert(containers@.take(0) =~= Seq::<ContainerPolicy>::empty());
    }
    let mut i: usize = 0;
    while i < containers.len()
        invariant
            i <= containers@.len(),
            forall|j: int|
                0 <= j < containers@.len() ==> covers(
                    table@,
                    #[trigger] containers@[j].config.secrets@,
                ),
            header_rules(global.allowed_hosts@, global.secrets@, table@, 0) is Ok,
            header_rules(global.allowed_hosts@, global.secrets@, table@, 0)->Ok_0 == g,
            sorted_by_key(entries@),
            forall|j: int| 0 <= j < entries@.len() ==> sorted_by_key(
                #[trigger] entries@[j].inject_headers@,
            ),
            match containers_policy(containers@.take(i as int), table@, g.1) {
                Ok(acc) => {
                    &&& container_map(entries@) == acc.0
                    &&& secret_pairs(secrets@) == acc.1
                },
                Err(_) => false,
            },
        decreases containers.len() - i,
    {
        let c = &containers[i];
        let ghost pre = containers@.take(i as int);
        assert(containers@.take(i + 1).drop_last() =~= pre);
        assert(containers@.take(i + 1).last() == containers@[i as int]);
        let ghost acc = containers_policy(pre, table@, g.1)->Ok_0;
        assert(secret_pairs(secrets@).len() == secrets@.len());
        assert(secrets@.len() == acc.1.len());
        let headers = match render_header_rules(&c.config, table, &mut secrets) {
            Ok(h) => h,
            Err(e) => {
                proof {
                    assert(containers_policy(containers@.take(i + 1), table@, g.1) == Err::<
                        (Map<Seq<char>, ContainerView>, Seq<(Seq<char>, Seq<char>)>),
                        MitmErrorView,
                    >(e@));
                    lemma_containers_policy_prefix(containers@, table@, g.1, i + 1);
                }
                return Err(e);
            },
        };
        let entry = ContainerEntry {
            name: c.name.clone(),
            ips: clone_ips(&c.ips),
            allow_domains: hosts_json(&c.config.allowed_hosts),
            inject_headers: headers,
        };
        let ghost ev = entry;
        let ghost before = entries@;
        upsert(&mut entries, entry);
        proof {
            assert forall|j: int| 0 <= j < entries@.len() implies sorted_by_key(
                #[trigger] entries@[j].inject_headers@,
            ) by {
                lemma_upsert_elements(before, entries@, ev, j);
            }
            assert(as_map(entries@) == as_map(before).insert((c.name@, Seq::empty()), ev));
            assert(container_map(entries@) =~= acc.0.insert(c.name@, container_view(ev)));
        }
        i = i + 1;
    }
    assert(containers@.take(containers@.len() as int) =~= containers@);
    Ok(
        MitmPolicy {
            containers: entries,
            allow_domains: hosts_json(&global.allowed_hosts),
            inject_headers: global_headers,
            secrets,
        },
    )
}

// ---------------------------------------------------------------------------
// Laws
// ---------------------------------------------------------------------------

/// Secret values stay out of the policy: every injected header of a
/// configuration is a `${NAME}` reference to a secret of the bundle, the
/// bundle has one secret per rule, and the secrets are numbered from
/// `start` in rule order.
pub proof fn law_headers_reference_bundle(
    allowed: Seq<Host>,
    secrets: Seq<SecretInjection>,
    table: Seq<SecretReading>,
    start: nat,
)
    requires
        header_rules(allowed, secrets, table, start) is Ok,
    ensures
        ({
            let acc = header_rules(allowed, secrets, table, start)->Ok_0;
            &&& acc.1.len() == secrets.len()
            &&& forall|j: int| 0 <= j < acc.1.len() ==> #[trigger] acc.1[j].0 == secret_name(
                (start + j) as nat,
            )
            &&& forall|k: SpecKey|
                #[trigger] acc.0.contains_key(k) ==> exists|j: int|
                    0 <= j < acc.1.len() && acc.0[k] == "${"@ + acc.1[j].0 + "}"@
        }),
    decreases secrets.len(),
{
    if secrets.len() > 0 {
        law_headers_reference_bundle(allowed, secrets.drop_last(), table, start);
        let prev = header_rules(allowed, secrets.drop_last(), table, start)->Ok_0;
        let acc = header_rules(allowed, secrets, table, start)->Ok_0;
        let s = secrets.last();
        let idx = start + prev.1.len();
        assert(acc.1 == prev.1.push((secret_name(idx), acc.1.last().1)));
        assert forall|j: int| 0 <= j < acc.1.len() implies #[trigger] acc.1[j].0 == secret_name(
            (start + j) as nat,
        ) by {
            if j < prev.1.len() {
                assert(acc.1[j] == prev.1[j]);
            }
        }
        assert forall|k: SpecKey| #[trigger] acc.0.contains_key(k) implies exists|j: int|
            0 <= j < acc.1.len() && acc.0[k] == "${"@ + acc.1[j].0 + "}"@ by {
            if k == (s.host@, s.header@) {
                let j = prev.1.len() as int;
                assert(acc.1[j].0 == secret_name(idx));
                assert(acc.0[k] == secret_ref(idx));
            } else {
                assert(prev.0.contains_key(k));
                let j = choose|j: int|
                    0 <= j < prev.1.len() && prev.0[k] == "${"@ + prev.1[j].0 + "}"@;
                assert(acc.1[j] == prev.1[j]);
            }
        }
    }
}

} // verus!
