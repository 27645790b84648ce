//! Squid configuration rendering for the shared proxy stack.
//!
//! Renders `squid.conf`: global defaults plus source-IP scoped rules for
//! registered castors that use Squid. The engine decides where the rendered
//! file lives and how it is mounted; this module only knows Squid syntax.

use vstd::prelude::*;

use crate::config::schema::{Host, ProxyMode, SecretInjection};
use crate::config::ResolvedConfig;
use crate::proxy::{
    covers, header_injection_value, injection_value, InjectionError, InjectionErrorView,
    ModeService, ProxyService, SecretReading,
};
use crate::text::{
    decimal, decimal_string, join, join_strs, owned, parse_u16, parse_u16_str, push_char,
    push_str, replace_all, replace_str, rsplit_once, rsplit_once_str, seq_lt, compare_str,
    chars_of, string_of_range, Cmp, is_empty_str, str_eq,
};

verus! {

pub const CONTAINER_NAME: &'static str = "castors-infra-squid";

pub const PORT: u16 = 3128;

/// The `squid.conf` every rendering starts from; the policy rules replace
/// [`POLICY_RULES_PLACEHOLDER`].
pub const SQUID_TEMPLATE: &'static str = "# Managed by castors; rewritten whenever the proxy policy changes.\nhttp_port 3128\n\ncache deny all\nvia off\nforwarded_for delete\n\nacl SSL_ports port 443\nacl CONNECT method CONNECT\nhttp_access deny CONNECT !SSL_ports\n\n{{CASTORS_POLICY_RULES}}\nhttp_access deny all\n";

pub const POLICY_RULES_PLACEHOLDER: &'static str = "{{CASTORS_POLICY_RULES}}";

/// The Squid proxy service.
pub struct SquidProxyService;

impl ProxyService for SquidProxyService {
    fn mode(&self) -> (r: ProxyMode)
        ensures
            r == ProxyMode::Squid,
    {
        ProxyMode::Squid
    }

    fn container_name(&self) -> (r: &'static str)
        ensures
            r@ == CONTAINER_NAME@,
    {
        CONTAINER_NAME
    }

    fn port(&self) -> (r: u16)
        ensures
            r == PORT,
    {
        PORT
    }

    fn compose_profile(&self) -> (r: Option<&'static str>)
        ensures
            r is None,
    {
        None
    }

    fn proxy_url(&self) -> (r: String)
        ensures
            r@ == crate::proxy::service_url(ProxyMode::Squid),
    {
        ModeService { mode: ProxyMode::Squid }.proxy_url()
    }
}

/// One registered castor as the policy sees it: its container name, its
/// addresses on the shared network and its resolved configuration.
#[derive(Debug, PartialEq, Eq)]
pub struct ContainerPolicy {
    pub name: String,
    pub ips: Vec<String>,
    pub config: ResolvedConfig,
}

// ---------------------------------------------------------------------------
// Errors
// ---------------------------------------------------------------------------

/// Why a Squid configuration could not be rendered.
pub enum SquidErrorView {
    SecretHostNotAllowed(Seq<char>),
    InvalidPort { host: Seq<char>, port: Seq<char> },
    EmptyHeaderName,
    InvalidHeaderName(Seq<char>),
    MissingValuePlaceholder { host: Seq<char>, header: Seq<char> },
    ReadEnv { name: Seq<char>, message: Seq<char> },
    ReadFile { path: Seq<char>, message: Seq<char> },
}

/// Why a Squid configuration could not be rendered.
#[derive(Debug, PartialEq, Eq)]
pub enum SquidConfigError {
    SecretHostNotAllowed(Host),
    InvalidPort { host: Host, port: String },
    EmptyHeaderName,
    InvalidHeaderName(String),
    MissingValuePlaceholder { host: Host, header: String },
    ReadEnv { name: String, message: String },
    ReadFile { path: String, message: String },
}

impl View for SquidConfigError {
    type V = SquidErrorView;

    open spec fn view(&self) -> SquidErrorView {
        match self {
            SquidConfigError::SecretHostNotAllowed(h) => SquidErrorView::SecretHostNotAllowed(h@),
            SquidConfigError::InvalidPort { host, port } => SquidErrorView::InvalidPort {
                host: host@,
                port: port@,
            },
            SquidConfigError::EmptyHeaderName => SquidErrorView::EmptyHeaderName,
            SquidConfigError::InvalidHeaderName(h) => SquidErrorView::InvalidHeaderName(h@),
            SquidConfigError::MissingValuePlaceholder { host, header } =>
                SquidErrorView::MissingValuePlaceholder { host: host@, header: header@ },
            SquidConfigError::ReadEnv { name, message } => SquidErrorView::ReadEnv {
                name: name@,
                message: message@,
            },
            SquidConfigError::ReadFile { path, message } => SquidErrorView::ReadFile {
                path: path@,
                message: message@,
            },
        }
    }
}

/// The Squid error for a failed header injection.
pub open spec fn from_injection(e: InjectionErrorView) -> SquidErrorView {
    match e {
        InjectionErrorView::EmptyHeaderName => SquidErrorView::EmptyHeaderName,
        InjectionErrorView::InvalidHeaderName(h) => SquidErrorView::InvalidHeaderName(h),
        InjectionErrorView::MissingValuePlaceholder { host, header } =>
            SquidErrorView::MissingValuePlaceholder { host, header },
        InjectionErrorView::ReadEnv { name, message } => SquidErrorView::ReadEnv { name, message },
        InjectionErrorView::ReadFile { path, message } => SquidErrorView::ReadFile {
            path,
            message,
        },
    }
}

/// The text of a Squid error.
pub open spec fn squid_error_message(e: SquidErrorView) -> Seq<char> {
    match e {
        SquidErrorView::SecretHostNotAllowed(h) => "secret injection for host '"@ + h
            + "' requires that host to also appear in allowed_hosts"@,
        SquidErrorView::InvalidPort { host, port } => "invalid allowlist host '"@ + host
            + "': port '"@ + port + "' is not a valid u16"@,
        SquidErrorView::EmptyHeaderName => "secret header name must not be empty"@,
        SquidErrorView::InvalidHeaderName(h) => "secret header name '"@ + h
            + "' must not contain whitespace or ':'"@,
        SquidErrorView::MissingValuePlaceholder { host, header } => "secret header '"@ + header
            + "' for host '"@ + host + "' is missing the `{{value}}` placeholder in value_template"@,
        SquidErrorView::ReadEnv { name, .. } => "failed to read secret from env var '"@ + name
            + "'"@,
        SquidErrorView::ReadFile { path, .. } => "failed to read secret file at "@ + path,
    }
}

impl SquidConfigError {
    /// The human-readable text of this error.
    pub fn to_string(&self) -> (r: String)
        ensures
            r@ == squid_error_message(self@),
    {
        let mut r = String::new();
        match self {
            SquidConfigError::SecretHostNotAllowed(h) => {
                push_str(&mut r, "secret injection for host '");
                push_str(&mut r, h.as_str());
                push_str(&mut r, "' requires that host to also appear in allowed_hosts");
            },
            SquidConfigError::InvalidPort { host, port } => {
                push_str(&mut r, "invalid allowlist host '");
                push_str(&mut r, host.as_str());
                push_str(&mut r, "': port '");
                push_str(&mut r, port.as_str());
                push_str(&mut r, "' is not a valid u16");
            },
            SquidConfigError::EmptyHeaderName => {
                push_str(&mut r, "secret header name must not be empty");
            },
            SquidConfigError::InvalidHeaderName(h) => {
                push_str(&mut r, "secret header name '");
                push_str(&mut r, h.as_str());
                push_str(&mut r, "' must not contain whitespace or ':'");
            },
            SquidConfigError::MissingValuePlaceholder { host, header } => {
                push_str(&mut r, "secret header '");
                push_str(&mut r, header.as_str());
                push_str(&mut r, "' for host '");
                push_str(&mut r, host.as_str());
                push_str(&mut r, "' is missing the `{{value}}` placeholder in value_template");
            },
            SquidConfigError::ReadEnv { name, .. } => {
                push_str(&mut r, "failed to read secret from env var '");
                push_str(&mut r, name.as_str());
                push_str(&mut r, "'");
            },
            SquidConfigError::ReadFile { path, .. } => {
                push_str(&mut r, "failed to read secret file at ");
                push_str(&mut r, path.as_str());
            },
        }
        r
    }
}

fn squid_error_of(e: InjectionError, host: &Host) -> (r: SquidConfigError)
    requires
        e matches InjectionError::MissingValuePlaceholder { host: h, .. } ==> h@ == host@,
    ensures
        r@ == from_injection(e@),
{
    match e {
        InjectionError::EmptyHeaderName => SquidConfigError::EmptyHeaderName,
        InjectionError::InvalidHeaderName(h) => SquidConfigError::InvalidHeaderName(h),
        InjectionError::MissingValuePlaceholder { host: _, header } => {
            SquidConfigError::MissingValuePlaceholder { host: host.clone(), header }
        },
        InjectionError::ReadEnv { name, message } => SquidConfigError::ReadEnv { name, message },
        InjectionError::ReadFile { path, message } => SquidConfigError::ReadFile { path, message },
    }
}

// ---------------------------------------------------------------------------
// Host rules
// ---------------------------------------------------------------------------

/// One header a rule adds to matching requests.
#[derive(Debug, PartialEq, Eq)]
pub struct HeaderInjection {
    pub header: String,
    pub value: String,
}

/// The policy for one allowlisted host: the Squid domain and optional port
/// it matches, and the headers injected into requests to it.
#[derive(Debug, PartialEq, Eq)]
pub struct HostRule {
    pub host: Host,
    pub domain: String,
    pub port: Option<u16>,
    pub injections: Vec<HeaderInjection>,
}

/// The abstract value of a [`HostRule`]; injections are `(header, value)`.
pub struct RuleView {
    pub host: Seq<char>,
    pub domain: Seq<char>,
    pub port: Option<u16>,
    pub injections: Seq<(Seq<char>, Seq<char>)>,
}

pub open spec fn injection_views(v: Seq<HeaderInjection>) -> Seq<(Seq<char>, Seq<char>)> {
    v.map_values(|h: HeaderInjection| (h.header@, h.value@))
}

impl View for HostRule {
    type V = RuleView;

    open spec fn view(&self) -> RuleView {
        RuleView {
            host: self.host@,
            domain: self.domain@,
            port: self.port,
            injections: injection_views(self.injections@),
        }
    }
}

pub open spec fn rules_view(v: Seq<HostRule>) -> Seq<RuleView> {
    v.map_values(|r: HostRule| r@)
}

/// `*.example.com` becomes Squid's `.example.com`; other domains stay.
pub open spec fn squid_domain_of(d: Seq<char>) -> Seq<char> {
    if d.len() >= 2 && d[0] == '*' && d[1] == '.' {
        seq!['.'] + d.skip(2)
    } else {
        d
    }
}

/// The Squid domain and port of an allowlisted host: a `:port` suffix after
/// a non-empty domain must be a valid `u16`.
pub open spec fn host_port(h: Seq<char>) -> Result<(Seq<char>, Option<u16>), SquidErrorView> {
    match rsplit_once(h, ':') {
        Some(parts) => if parts.0.len() > 0 {
            match parse_u16(parts.1) {
                Some(n) => Ok((squid_domain_of(parts.0), Some(n))),
                None => Err(SquidErrorView::InvalidPort { host: h, port: parts.1 }),
            }
        } else {
            Ok((squid_domain_of(h), None))
        },
        None => Ok((squid_domain_of(h), None)),
    }
}

/// One rule per allowlisted host, in order, without injections; or the
/// first host whose port is invalid.
pub open spec fn base_rules(hosts: Seq<Host>) -> Result<Seq<RuleView>, SquidErrorView>
    decreases hosts.len(),
{
    if hosts.len() == 0 {
        Ok(Seq::empty())
    } else {
        match base_rules(hosts.drop_last()) {
            Err(e) => Err(e),
            Ok(rs) => match host_port(hosts.last()@) {
                Err(e) => Err(e),
                Ok(dp) => Ok(
                    rs.push(
                        RuleView {
                            host: hosts.last()@,
                            domain: dp.0,
                            port: dp.1,
                            injections: Seq::empty(),
                        },
                    ),
                ),
            },
        }
    }
}

/// `j` is the first rule for `host`.
pub open spec fn first_rule(rs: Seq<RuleView>, host: Seq<char>, j: int) -> bool {
    &&& 0 <= j < rs.len()
    &&& rs[j].host == host
    &&& forall|k: int| 0 <= k < j ==> rs[k].host != host
}

/// Adds one secret's header to the first rule for its host.
pub open spec fn attach_one(rs: Seq<RuleView>, s: SecretInjection, table: Seq<SecretReading>) -> Result<
    Seq<RuleView>,
    SquidErrorView,
> {
    if exists|j: int| 0 <= j < rs.len() && rs[j].host == s.host@ {
        let j = choose|j: int| first_rule(rs, s.host@, j);
        match injection_value(s, table) {
            Err(e) => Err(from_injection(e)),
            Ok(v) => Ok(
                rs.update(
                    j,
                    RuleView {
                        host: rs[j].host,
                        domain: rs[j].domain,
                        port: rs[j].port,
                        injections: rs[j].injections.push((s.header@, v)),
                    },
                ),
            ),
        }
    } else {
        Err(SquidErrorView::SecretHostNotAllowed(s.host@))
    }
}

/// Adds every secret's header, in order; or the first failure.
pub open spec fn attach_secrets(
    rs: Seq<RuleView>,
    secrets: Seq<SecretInjection>,
    table: Seq<SecretReading>,
) -> Result<Seq<RuleView>, SquidErrorView>
    decreases secrets.len(),
{
    if secrets.len() == 0 {
        Ok(rs)
    } else {
        match attach_secrets(rs, secrets.drop_last(), table) {
            Err(e) => Err(e),
            Ok(r) => attach_one(r, secrets.last(), table),
        }
    }
}

/// Inserts `x` after every rule whose host does not sort after it.
pub open spec fn insert_rule(s: Seq<RuleView>, x: RuleView) -> Seq<RuleView>
    decreases s.len(),
{
    if s.len() == 0 || !seq_lt(x.host, s.last().host) {
        s.push(x)
    } else {
        insert_rule(s.drop_last(), x).push(s.last())
    }
}

/// The rules stably sorted by host.
pub open spec fn sort_rules(s: Seq<RuleView>) -> Seq<RuleView>
    decreases s.len(),
{
    if s.len() == 0 {
        s
    } else {
        insert_rule(sort_rules(s.drop_last()), s.last())
    }
}

/// The host rules of one configuration, sorted by host.
pub open spec fn host_rules(config: ResolvedConfig, table: Seq<SecretReading>) -> Result<
    Seq<RuleView>,
    SquidErrorView,
> {
    match base_rules(config.allowed_hosts@) {
        Err(e) => Err(e),
        Ok(b) => match attach_secrets(b, config.secrets@, table) {
            Err(e) => Err(e),
            Ok(r) => Ok(sort_rules(r)),
        },
    }
}

// ---------------------------------------------------------------------------
// Rule text
// ---------------------------------------------------------------------------

/// One character, escaped for a double-quoted Squid string.
pub open spec fn escape_char(c: char) -> Seq<char> {
    if c == '\\' {
        seq!['\\', '\\']
    } else if c == '"' {
        seq!['\\', '"']
    } else {
        seq![c]
    }
}

/// `value` with every backslash and `"` escaped by a backslash.
pub open spec fn escape_quoted_spec(value: Seq<char>) -> Seq<char>
    decreases value.len(),
{
    if value.len() == 0 {
        Seq::empty()
    } else {
        escape_quoted_spec(value.drop_last()) + escape_char(value.last())
    }
}

/// `<prefix>_<idx><suffix>`.
pub open spec fn acl_name(prefix: Seq<char>, idx: nat, suffix: Seq<char>) -> Seq<char> {
    prefix + "_"@ + decimal(idx) + suffix
}

/// The ACLs that guard rule `idx`: the base guards, its destination, and its
/// port when it has one.
pub open spec fn rule_guards(base: Seq<Seq<char>>, r: RuleView, prefix: Seq<char>, idx: nat) -> Seq<
    Seq<char>,
> {
    let g = base.push(acl_name(prefix, idx, "_dst"@));
    match r.port {
        Some(_) => g.push(acl_name(prefix, idx, "_port"@)),
        None => g,
    }
}

/// One `request_header_add` line per injection.
pub open spec fn injection_lines(inj: Seq<(Seq<char>, Seq<char>)>, guards: Seq<char>) -> Seq<char>
    decreases inj.len(),
{
    if inj.len() == 0 {
        Seq::empty()
    } else {
        injection_lines(inj.drop_last(), guards) + "request_header_add "@ + inj.last().0 + " \""@
            + escape_quoted_spec(inj.last().1) + "\" "@ + guards + "\n"@
    }
}

/// The comment and ACL lines that open rule `idx`.
pub open spec fn rule_head(r: RuleView, idx: nat, prefix: Seq<char>, cp: Seq<char>) -> Seq<char> {
    "# "@ + cp + r.host + "\n"@ + "acl "@ + acl_name(prefix, idx, "_dst"@) + " dstdomain "@
        + r.domain + "\n"@
}

/// The port ACL line of rule `idx`, if it has a port.
pub open spec fn rule_port_line(r: RuleView, idx: nat, prefix: Seq<char>) -> Seq<char> {
    match r.port {
        Some(p) => "acl "@ + acl_name(prefix, idx, "_port"@) + " port "@ + decimal(p as nat)
            + "\n"@,
        None => Seq::empty(),
    }
}

/// The full text of rule `idx`.
pub open spec fn rule_text(
    r: RuleView,
    idx: nat,
    prefix: Seq<char>,
    cp: Seq<char>,
    base: Seq<Seq<char>>,
) -> Seq<char> {
    let g = join(rule_guards(base, r, prefix, idx), " "@);
    rule_head(r, idx, prefix, cp) + rule_port_line(r, idx, prefix) + injection_lines(
        r.injections,
        g,
    ) + "http_access allow "@ + g + "\n"@ + "\n"@
}

/// The text of a list of rules, numbered from zero.
pub open spec fn rules_text(
    rules: Seq<RuleView>,
    prefix: Seq<char>,
    cp: Seq<char>,
    base: Seq<Seq<char>>,
) -> Seq<char>
    decreases rules.len(),
{
    if rules.len() == 0 {
        Seq::empty()
    } else {
        rules_text(rules.drop_last(), prefix, cp, base) + rule_text(
            rules.last(),
            (rules.len() - 1) as nat,
            prefix,
            cp,
            base,
        )
    }
}

// ---------------------------------------------------------------------------
// Whole policy
// ---------------------------------------------------------------------------

/// `castor_<idx>_src`.
pub open spec fn source_acl(idx: nat) -> Seq<char> {
    "castor_"@ + decimal(idx) + "_src"@
}

/// The source-scoped blocks of the containers, in order: one for each
/// container that uses Squid and has an address; or the first failure.
pub open spec fn containers_text(cs: Seq<ContainerPolicy>, table: Seq<SecretReading>) -> Result<
    Seq<char>,
    SquidErrorView,
>
    decreases cs.len(),
{
    if cs.len() == 0 {
        Ok(Seq::empty())
    } else {
        match containers_text(cs.drop_last(), table) {
            Err(e) => Err(e),
            Ok(t) => {
                let i = (cs.len() - 1) as nat;
                let c = cs.last();
                if c.config.proxy != ProxyMode::Squid || c.ips@.len() == 0 {
                    Ok(t)
                } else {
                    match host_rules(c.config, table) {
                        Err(e) => Err(e),
                        Ok(rules) => Ok(
                            t + "# "@ + c.name@ + "\n"@ + "acl "@ + source_acl(i) + " src "@ + join(
                                c.ips.deep_view(),
                                " "@,
                            ) + "\n"@ + rules_text(
                                rules,
                                "castor_"@ + decimal(i),
                                c.name@ + ": "@,
                                seq![source_acl(i)],
                            ),
                        ),
                    }
                }
            },
        }
    }
}

/// Every address of every registered container, in order.
pub open spec fn managed_ips(cs: Seq<ContainerPolicy>) -> Seq<Seq<char>>
    decreases cs.len(),
{
    if cs.len() == 0 {
        Seq::empty()
    } else {
        managed_ips(cs.drop_last()) + cs.last().ips.deep_view()
    }
}

/// The `managed_castors_src` ACL, when any container has an address.
pub open spec fn managed_text(ips: Seq<Seq<char>>) -> Seq<char> {
    if ips.len() == 0 {
        Seq::empty()
    } else {
        "# Registered castors with source-specific policy.\n"@ + "acl managed_castors_src src "@
            + join(ips, " "@) + "\n"@ + "\n"@
    }
}

/// The guards of the global rules: traffic from registered containers is
/// left to their own rules.
pub open spec fn global_guards(ips: Seq<Seq<char>>) -> Seq<Seq<char>> {
    if ips.len() == 0 {
        Seq::empty()
    } else {
        seq!["!managed_castors_src"@]
    }
}

/// The policy rules that replace the template's placeholder.
pub open spec fn policy_rules(
    global: ResolvedConfig,
    cs: Seq<ContainerPolicy>,
    table: Seq<SecretReading>,
) -> Result<Seq<char>, SquidErrorView> {
    match containers_text(cs, table) {
        Err(e) => Err(e),
        Ok(t) => match host_rules(global, table) {
            Err(e) => Err(e),
            Ok(g) => Ok(
                t + managed_text(managed_ips(cs)) + rules_text(
                    g,
                    "global"@,
                    Seq::empty(),
                    global_guards(managed_ips(cs)),
                ),
            ),
        },
    }
}

/// The rendered `squid.conf`.
pub open spec fn rendered_policy(
    global: ResolvedConfig,
    cs: Seq<ContainerPolicy>,
    table: Seq<SecretReading>,
) -> Result<Seq<char>, SquidErrorView> {
    match policy_rules(global, cs, table) {
        Err(e) => Err(e),
        Ok(rules) => Ok(replace_all(SQUID_TEMPLATE@, POLICY_RULES_PLACEHOLDER@, rules)),
    }
}

/// The view of a rendering result.
pub open spec fn render_view(r: Result<String, SquidConfigError>) -> Result<Seq<char>, SquidErrorView> {
    match r {
        Ok(s) => Ok(s@),
        Err(e) => Err(e@),
    }
}

// ---------------------------------------------------------------------------
// Prefix lemmas: a failure on a prefix is the failure of the whole
// ---------------------------------------------------------------------------

proof fn lemma_base_rules_prefix(hosts: Seq<Host>, k: int)
    requires
        0 <= k <= hosts.len(),
        base_rules(hosts.take(k)) is Err,
    ensures
        base_rules(hosts) == base_rules(hosts.take(k)),
    decreases hosts.len(),
{
    if k == hosts.len() {
        assert(hosts.take(k) =~= hosts);
    } else {
        assert(hosts.drop_last().take(k) =~= hosts.take(k));
        lemma_base_rules_prefix(hosts.drop_last(), k);
    }
}

proof fn lemma_attach_prefix(
    rs: Seq<RuleView>,
    secrets: Seq<SecretInjection>,
    table: Seq<SecretReading>,
    k: int,
)
    requires
        0 <= k <= secrets.len(),
        attach_secrets(rs, secrets.take(k), table) is Err,
    ensures
        attach_secrets(rs, secrets, table) == attach_secrets(rs, secrets.take(k), table),
    decreases secrets.len(),
{
    if k == secrets.len() {
        assert(secrets.take(k) =~= secrets);
    } else {
        assert(secrets.drop_last().take(k) =~= secrets.take(k));
        lemma_attach_prefix(rs, secrets.drop_last(), table, k);
    }
}

proof fn lemma_containers_prefix(cs: Seq<ContainerPolicy>, table: Seq<SecretReading>, k: int)
    requires
        0 <= k <= cs.len(),
        containers_text(cs.take(k), table) is Err,
    ensures
        containers_text(cs, table) == containers_text(cs.take(k), table),
    decreases cs.len(),
{
    if k == cs.len() {
        assert(cs.take(k) =~= cs);
    } else {
        assert(cs.drop_last().take(k) =~= cs.take(k));
        lemma_containers_prefix(cs.drop_last(), table, k);
    }
}

/// Inserting at the position found by scanning from the right.
proof fn lemma_insert_rule_at(s: Seq<RuleView>, x: RuleView, p: int)
    requires
        0 <= p <= s.len(),
        forall|k: int| p <= k < s.len() ==> seq_lt(x.host, #[trigger] s[k].host),
        p == 0 || !seq_lt(x.host, s[p - 1].host),
    ensures
        insert_rule(s, x) == s.take(p).push(x) + s.skip(p),
    decreases s.len(),
{
    if p == s.len() {
        assert(s.take(p) =~= s);
        assert(s.take(p).push(x) + s.skip(p) =~= s.push(x));
    } else {
        assert(seq_lt(x.host, s[s.len() - 1].host));
        lemma_insert_rule_at(s.drop_last(), x, p);
        assert(s.drop_last().take(p) =~= s.take(p));
        assert((s.take(p).push(x) + s.drop_last().skip(p)).push(s.last()) =~= s.take(p).push(x)
            + s.skip(p));
    }
}

// ---------------------------------------------------------------------------
// Building host rules
// ---------------------------------------------------------------------------

/// `*.example.com` as Squid's `.example.com` (see [`squid_domain_of`]).
pub fn squid_domain(domain: &str) -> (r: String)
    ensures
        r@ == squid_domain_of(domain@),
{
    let cs = chars_of(domain);
    if cs.len() >= 2 && cs[0] == '*' && cs[1] == '.' {
        let mut r = String::new();
        push_char(&mut r, '.');
        let rest = string_of_range(&cs, 2, cs.len());
        push_str(&mut r, rest.as_str());
        assert(cs@.subrange(2, cs@.len() as int) =~= domain@.skip(2));
        assert(r@ =~= seq!['.'] + domain@.skip(2));
        r
    } else {
        owned(domain)
    }
}

/// Splits an allowlisted host into its Squid domain and optional port (see
/// [`host_port`]).
pub fn split_host_port(host: &Host) -> (r: Result<(String, Option<u16>), SquidConfigError>)
    ensures
        match r {
            Ok((d, p)) => host_port(host@) == Ok::<(Seq<char>, Option<u16>), SquidErrorView>(
                (d@, p),
            ),
            Err(e) => host_port(host@) == Err::<(Seq<char>, Option<u16>), SquidErrorView>(e@),
        },
{
    let raw = host.as_str();
    match rsplit_once_str(raw, ':') {
        Some((domain, port)) => {
            if !is_empty_str(domain.as_str()) {
                match parse_u16_str(port.as_str()) {
                    Some(n) => Ok((squid_domain(domain.as_str()), Some(n))),
                    None => Err(SquidConfigError::InvalidPort { host: host.clone(), port }),
                }
            } else {
                Ok((squid_domain(raw), None))
            }
        },
        None => Ok((squid_domain(raw), None)),
    }
}

fn base_rules_exec(hosts: &Vec<Host>) -> (r: Result<Vec<HostRule>, SquidConfigError>)
    ensures
        match r {
            Ok(v) => base_rules(hosts@) == Ok::<Seq<RuleView>, SquidErrorView>(rules_view(v@)),
            Err(e) => base_rules(hosts@) == Err::<Seq<RuleView>, SquidErrorView>(e@),
        },
{
    let mut out: Vec<HostRule> = Vec::new();
    let mut i: usize = 0;
    assert(hosts@.take(0) =~= Seq::<Host>::empty());
    assert(rules_view(out@) =~= Seq::<RuleView>::empty());
    while i < hosts.len()
        invariant
            i <= hosts@.len(),
            base_rules(hosts@.take(i as int)) == Ok::<Seq<RuleView>, SquidErrorView>(
                rules_view(out@),
            ),
        decreases hosts.len() - i,
    {
        assert(hosts@.take(i + 1).drop_last() =~= hosts@.take(i as int));
        assert(hosts@.take(i + 1).last() == hosts@[i as int]);
        match split_host_port(&hosts[i]) {
            Err(e) => {
                proof {
                    lemma_base_rules_prefix(hosts@, i + 1);
                }
                return Err(e);
            },
            Ok((domain, port)) => {
                let rule = HostRule {
                    host: hosts[i].clone(),
                    domain,
                    port,
                    injections: Vec::new(),
                };
                let ghost rv = rule@;
                assert(rv.injections =~= Seq::<(Seq<char>, Seq<char>)>::empty());
                let ghost before = rules_view(out@);
                out.push(rule);
                assert(rules_view(out@) =~= before.push(rv));
            },
        }
        i = i + 1;
    }
    assert(hosts@.take(hosts@.len() as int) =~= hosts@);
    Ok(out)
}

fn attach_secrets_exec(
    rules: &mut Vec<HostRule>,
    secrets: &Vec<SecretInjection>,
    table: &[SecretReading],
) -> (r: Result<(), SquidConfigError>)
    requires
        covers(table@, secrets@),
    ensures
        match r {
            Ok(()) => attach_secrets(rules_view(old(rules)@), secrets@, table@) == Ok::<
                Seq<RuleView>,
                SquidErrorView,
            >(rules_view(final(rules)@)),
            Err(e) => attach_secrets(rules_view(old(rules)@), secrets@, table@) == Err::<
                Seq<RuleView>,
                SquidErrorView,
            >(e@),
        },
{
    let ghost orig = rules_view(rules@);
    let mut k: usize = 0;
    assert(secrets@.take(0) =~= Seq::<SecretInjection>::empty());
    while k < secrets.len()
        invariant
            k <= secrets@.len(),
            covers(table@, secrets@),
            orig == rules_view(old(rules)@),
            attach_secrets(orig, secrets@.take(k as int), table@) == Ok::<
                Seq<RuleView>,
                SquidErrorView,
            >(rules_view(rules@)),
        decreases secrets.len() - k,
    {
        let secret = &secrets[k];
        assert(secrets@.take(k + 1).drop_last() =~= secrets@.take(k as int));
        assert(secrets@.take(k + 1).last() == secrets@[k as int]);
        assert(has_reading_of(table@, secrets@, k as int));
        let ghost rs = rules_view(rules@);
        let mut j: usize = 0;
        while j < rules.len() && !str_eq(rules[j].host.as_str(), secret.host.as_str())
            invariant
                j <= rules@.len(),
                rs == rules_view(rules@),
                forall|t: int| 0 <= t < j ==> rs[t].host != secret.host@,
            decreases rules.len() - j,
        {
            j = j + 1;
        }
        if j == rules.len() {
            proof {
                assert(!(exists|t: int| 0 <= t < rs.len() && rs[t].host == secret.host@));
                lemma_attach_prefix(orig, secrets@, table@, k + 1);
            }
            return Err(SquidConfigError::SecretHostNotAllowed(secret.host.clone()));
        }
        proof {
            assert(rs[j as int].host == secret.host@);
            assert(first_rule(rs, secret.host@, j as int));
            let c = choose|c: int| first_rule(rs, secret.host@, c);
            if c < j {
            } else if c > j {
            }
            assert(c == j);
        }
        match header_injection_value(secret, table) {
            Err(e) => {
                let err = squid_error_of(e, &secret.host);
                proof {
                    lemma_attach_prefix(orig, secrets@, table@, k + 1);
                }
                return Err(err);
            },
            Ok(v) => {
                let ghost vv = v@;
                let mut rule = rules.remove(j);
                let ghost before_inj = injection_views(rule.injections@);
                rule.injections.push(HeaderInjection { header: secret.header.clone(), value: v });
                assert(injection_views(rule.injections@) =~= before_inj.push((secret.header@, vv)));
                rules.insert(j, rule);
                assert(rules_view(rules@) =~= rs.update(
                    j as int,
                    RuleView {
                        host: rs[j as int].host,
                        domain: rs[j as int].domain,
                        port: rs[j as int].port,
                        injections: rs[j as int].injections.push((secret.header@, vv)),
                    },
                ));
            },
        }
        k = k + 1;
    }
    assert(secrets@.take(secrets@.len() as int) =~= secrets@);
    Ok(())
}

/// The reading of secret `k`'s source is in the table.
spec fn has_reading_of(table: Seq<SecretReading>, secrets: Seq<SecretInjection>, k: int) -> bool {
    crate::proxy::has_reading(table, secrets[k].value_from@)
}

fn insert_sorted(out: &mut Vec<HostRule>, x: HostRule)
    ensures
        rules_view(final(out)@) == insert_rule(rules_view(old(out)@), x@),
{
    let mut p: usize = out.len();
    while p > 0 && compare_str(x.host.as_str(), out[p - 1].host.as_str()) == Cmp::Less
        invariant
            p <= out@.len(),
            forall|k: int| p <= k < out@.len() ==> seq_lt(x@.host, #[trigger] out@[k]@.host),
        decreases p,
    {
        p = p - 1;
    }
    let ghost before = rules_view(out@);
    let ghost xv = x@;
    proof {
        assert forall|k: int| p <= k < before.len() implies seq_lt(xv.host, #[trigger] before[k].host) by {
            assert(before[k] == out@[k]@);
        }
        if p > 0 {
            assert(before[p - 1] == out@[p - 1]@);
        }
        lemma_insert_rule_at(before, xv, p as int);
    }
    out.insert(p, x);
    assert(rules_view(out@) =~= before.take(p as int).push(xv) + before.skip(p as int));
}

fn sort_rules_exec(rules: Vec<HostRule>) -> (r: Vec<HostRule>)
    ensures
        rules_view(r@) == sort_rules(rules_view(rules@)),
{
    let ghost orig = rules_view(rules@);
    let n = rules.len();
    let mut input = rules;
    let mut out: Vec<HostRule> = Vec::new();
    let mut i: usize = 0;
    assert(orig.skip(0) =~= orig);
    assert(orig.take(0) =~= Seq::<RuleView>::empty());
    assert(rules_view(out@) =~= Seq::<RuleView>::empty());
    while 0 < input.len()
        invariant
            i + input@.len() == n,
            n == orig.len(),
            rules_view(input@) == orig.skip(i as int),
            rules_view(out@) == sort_rules(orig.take(i as int)),
        decreases input.len(),
    {
        let ghost rest = rules_view(input@);
        let ghost old_in = input@;
        let x = input.remove(0);
        assert(rest[0] == x@);
        assert forall|t: int| 0 <= t < input@.len() implies #[trigger] rules_view(input@)[t]
            == orig.skip(i + 1)[t] by {
            assert(input@[t] == old_in[t + 1]);
            assert(rest[t + 1] == orig.skip(i as int)[t + 1]);
        }
        assert(orig.take(i + 1).drop_last() =~= orig.take(i as int));
        assert(orig.take(i + 1).last() == x@);
        assert(rules_view(input@) =~= orig.skip(i + 1));
        insert_sorted(&mut out, x);
        i = i + 1;
    }
    assert(orig.take(n as int) =~= orig);
    out
}

/// The host rules of one configuration, sorted by host (see
/// [`host_rules`]).
pub fn build_host_rules(config: &ResolvedConfig, table: &[SecretReading]) -> (r: Result<
    Vec<HostRule>,
    SquidConfigError,
>)
    requires
        covers(table@, config.secrets@),
    ensures
        match r {
            Ok(v) => host_rules(*config, table@) == Ok::<Seq<RuleView>, SquidErrorView>(
                rules_view(v@),
            ),
            Err(e) => host_rules(*config, table@) == Err::<Seq<RuleView>, SquidErrorView>(e@),
        },
{
    let mut rules = match base_rules_exec(&config.allowed_hosts) {
        Ok(v) => v,
        Err(e) => return Err(e),
    };
    match attach_secrets_exec(&mut rules, &config.secrets, table) {
        Ok(()) => {},
        Err(e) => return Err(e),
    }
    Ok(sort_rules_exec(rules))
}

// ---------------------------------------------------------------------------
// Rendering
// ---------------------------------------------------------------------------

/// Escapes `\` and `"` for a double-quoted Squid string.
pub fn escape_quoted(value: &str) -> (r: String)
    ensures
        r@ == escape_quoted_spec(value@),
{
    let cs = chars_of(value);
    let mut r = String::new();
    let mut i: usize = 0;
    assert(cs@.take(0) =~= Seq::<char>::empty());
    while i < cs.len()
        invariant
            i <= cs@.len(),
            cs@ == value@,
            r@ == escape_quoted_spec(cs@.take(i as int)),
        decreases cs.len() - i,
    {
        let c = cs[i];
        assert(cs@.take(i + 1).drop_last() =~= cs@.take(i as int));
        assert(cs@.take(i + 1).last() == c);
        let ghost before = r@;
        if c == '\\' {
            push_char(&mut r, '\\');
            push_char(&mut r, '\\');
        } else if c == '"' {
            push_char(&mut r, '\\');
            push_char(&mut r, '"');
        } else {
            push_char(&mut r, c);
        }
        assert(r@ =~= before + escape_char(c));
        i = i + 1;
    }
    assert(cs@.take(cs@.len() as int) =~= cs@);
    r
}

/// Resolves a secret source from the readings in `table`, reporting a read
/// failure as the matching error.
pub fn resolve_secret_source(source: &crate::config::schema::SecretSource, table: &[SecretReading]) -> (r: Result<
    String,
    SquidConfigError,
>)
    requires
        crate::proxy::has_reading(table@, source@),
    ensures
        match crate::proxy::secret_text(table@, source@) {
            Ok(v) => r matches Ok(s) && s@ == v,
            Err(m) => match r {
                Err(SquidConfigError::ReadEnv { name, message }) => source@
                    == crate::config::schema::SecretSourceView::Env(name@) && message@ == m,
                Err(SquidConfigError::ReadFile { path, message }) => source@
                    == crate::config::schema::SecretSourceView::File(path@) && message@ == m,
                _ => false,
            },
        },
{
    match crate::proxy::lookup_secret(table, source) {
        Ok(v) => Ok(v),
        Err(message) => match source {
            crate::config::schema::SecretSource::Env(name) => Err(
                SquidConfigError::ReadEnv { name: name.clone(), message },
            ),
            crate::config::schema::SecretSource::File(path) => Err(
                SquidConfigError::ReadFile { path: path.clone(), message },
            ),
        },
    }
}

fn acl_name_exec(prefix: &str, idx: usize, suffix: &str) -> (r: String)
    ensures
        r@ == acl_name(prefix@, idx as nat, suffix@),
{
    let mut r = owned(prefix);
    push_str(&mut r, "_");
    let d = decimal_string(idx as u64);
    push_str(&mut r, d.as_str());
    push_str(&mut r, suffix);
    r
}

fn clone_strings(v: &Vec<String>) -> (r: Vec<String>)
    ensures
        r.deep_view() == v.deep_view(),
{
    let mut r: Vec<String> = Vec::new();
    let mut i: usize = 0;
    while i < v.len()
        invariant
            i <= v@.len(),
            r.deep_view() == v.deep_view().take(i as int),
        decreases v.len() - i,
    {
        let ghost before = r.deep_view();
        r.push(v[i].clone());
        assert(r.deep_view() =~= before.push(v[i as int]@));
        assert(v.deep_view().take(i + 1) =~= v.deep_view().take(i as int).push(v[i as int]@));
        i = i + 1;
    }
    assert(v.deep_view().take(v@.len() as int) =~= v.deep_view());
    r
}

fn render_rule(rule: &HostRule, idx: usize, prefix: &str, cp: &str, base: &Vec<String>) -> (r: String)
    ensures
        r@ == rule_text(rule@, idx as nat, prefix@, cp@, base.deep_view()),
{
    let ghost rv = rule@;
    let dst = acl_name_exec(prefix, idx, "_dst");
    let mut head = owned("# ");
    push_str(&mut head, cp);
    push_str(&mut head, rule.host.as_str());
    push_str(&mut head, "\n");
    push_str(&mut head, "acl ");
    push_str(&mut head, dst.as_str());
    push_str(&mut head, " dstdomain ");
    push_str(&mut head, rule.domain.as_str());
    push_str(&mut head, "\n");
    assert(head@ == rule_head(rv, idx as nat, prefix@, cp@));
    let mut guards = clone_strings(base);
    let ghost g0 = guards.deep_view();
    let ghost dv = dst@;
    guards.push(dst);
    assert(guards.deep_view() =~= g0.push(dv));
    let port_line = match rule.port {
        Some(port) => {
            let pa = acl_name_exec(prefix, idx, "_port");
            let mut pl = owned("acl ");
            push_str(&mut pl, pa.as_str());
            push_str(&mut pl, " port ");
            let ps = decimal_string(port as u64);
            push_str(&mut pl, ps.as_str());
            push_str(&mut pl, "\n");
            let ghost g1 = guards.deep_view();
            let ghost pav = pa@;
            guards.push(pa);
            assert(guards.deep_view() =~= g1.push(pav));
            pl
        },
        None => String::new(),
    };
    assert(port_line@ =~= rule_port_line(rv, idx as nat, prefix@));
    assert(guards.deep_view() =~= rule_guards(base.deep_view(), rv, prefix@, idx as nat));
    let g = join_strs(&guards, " ");
    let mut inj = String::new();
    let mut k: usize = 0;
    assert(rv.injections.take(0) =~= Seq::<(Seq<char>, Seq<char>)>::empty());
    while k < rule.injections.len()
        invariant
            k <= rule.injections@.len(),
            rv == rule@,
            inj@ == injection_lines(rv.injections.take(k as int), g@),
        decreases rule.injections.len() - k,
    {
        let h = &rule.injections[k];
        assert(rv.injections.take(k + 1).drop_last() =~= rv.injections.take(k as int));
        assert(rv.injections.take(k + 1).last() == (h.header@, h.value@));
        push_str(&mut inj, "request_header_add ");
        push_str(&mut inj, h.header.as_str());
        push_str(&mut inj, " \"");
        let e = escape_quoted(h.value.as_str());
        push_str(&mut inj, e.as_str());
        push_str(&mut inj, "\" ");
        push_str(&mut inj, g.as_str());
        push_str(&mut inj, "\n");
        k = k + 1;
    }
    assert(rv.injections.take(rv.injections.len() as int) =~= rv.injections);
    let mut r = head;
    push_str(&mut r, port_line.as_str());
    push_str(&mut r, inj.as_str());
    push_str(&mut r, "http_access allow ");
    push_str(&mut r, g.as_str());
    push_str(&mut r, "\n");
    push_str(&mut r, "\n");
    r
}

/// Appends the text of `rules` (see [`rules_text`]).
fn render_policy_rules(
    out: &mut String,
    rules: &Vec<HostRule>,
    acl_prefix: &str,
    comment_prefix: &str,
    base_guard_acls: &Vec<String>,
)
    ensures
        final(out)@ == old(out)@ + rules_text(
            rules_view(rules@),
            acl_prefix@,
            comment_prefix@,
            base_guard_acls.deep_view(),
        ),
{
    let ghost rv = rules_view(rules@);
    let ghost start = out@;
    let mut i: usize = 0;
    assert(rv.take(0) =~= Seq::<RuleView>::empty());
    assert(out@ =~= start + Seq::<char>::empty());
    while i < rules.len()
        invariant
            i <= rules@.len(),
            rv == rules_view(rules@),
            out@ == start + rules_text(
                rv.take(i as int),
                acl_prefix@,
                comment_prefix@,
                base_guard_acls.deep_view(),
            ),
        decreases rules.len() - i,
    {
        let t = render_rule(&rules[i], i, acl_prefix, comment_prefix, base_guard_acls);
        let ghost prev = rules_text(rv.take(i as int), acl_prefix@, comment_prefix@, base_guard_acls.deep_view());
        assert(rv.take(i + 1).drop_last() =~= rv.take(i as int));
        assert(rv.take(i + 1).last() == rules@[i as int]@);
        push_str(out, t.as_str());
        assert(out@ =~= start + (prev + t@));
        i = i + 1;
    }
    assert(rv.take(rv.len() as int) =~= rv);
}

fn source_acl_exec(idx: usize) -> (r: String)
    ensures
        r@ == source_acl(idx as nat),
{
    let mut r = owned("castor_");
    let d = decimal_string(idx as u64);
    push_str(&mut r, d.as_str());
    push_str(&mut r, "_src");
    r
}

/// Renders `squid.conf` for the global configuration and the registered
/// containers: a source-scoped block per Squid container with an address,
/// then the global rules, guarded so that they apply only to traffic from
/// no registered container. Secret material comes from `table`.
pub fn render_policy(
    global: &ResolvedConfig,
    containers: &[ContainerPolicy],
    table: &[SecretReading],
) -> (r: Result<String, SquidConfigError>)
    requires
        covers(table@, global.secrets@),
        forall|i: int|
            0 <= i < containers@.len() ==> covers(table@, #[trigger] containers@[i].config.secrets@),
    ensures
        render_view(r) == rendered_policy(*global, containers@, table@),
{
    let mut rules = String::new();
    let mut managed: Vec<String> = Vec::new();
    let mut i: usize = 0;
    assert(containers@.take(0) =~= Seq::<ContainerPolicy>::empty());
    assert(managed.deep_view() =~= Seq::<Seq<char>>::empty());
    while i < containers.len()
        invariant
            i <= containers@.len(),
            forall|j: int|
                0 <= j < containers@.len() ==> covers(
                    table@,
                    #[trigger] containers@[j].config.secrets@,
                ),
            containers_text(containers@.take(i as int), table@) == Ok::<Seq<char>, SquidErrorView>(
                rules@,
            ),
            managed.deep_view() == managed_ips(containers@.take(i as int)),
        decreases containers.len() - i,
    {
        let c = &containers[i];
        let ghost pre = containers@.take(i as int);
        assert(containers@.take(i + 1).drop_last() =~= pre);
        assert(containers@.take(i + 1).last() == containers@[i as int]);
        let ghost mbefore = managed.deep_view();
        let mut k: usize = 0;
        assert(c.ips.deep_view().take(0) =~= Seq::<Seq<char>>::empty());
        assert(managed.deep_view() =~= mbefore + c.ips.deep_view().take(0));
        while k < c.ips.len()
            invariant
                k <= c.ips@.len(),
                managed.deep_view() == mbefore + c.ips.deep_view().take(k as int),
            decreases c.ips.len() - k,
        {
            let ghost m0 = managed.deep_view();
            managed.push(c.ips[k].clone());
            assert(managed.deep_view() =~= m0.push(c.ips[k as int]@));
            assert(c.ips.deep_view().take(k + 1) =~= c.ips.deep_view().take(k as int).push(
                c.ips[k as int]@,
            ));
            k = k + 1;
        }
        assert(c.ips.deep_view().take(c.ips@.len() as int) =~= c.ips.deep_view());
        if c.config.proxy != ProxyMode::Squid || c.ips.len() == 0 {
        } else {
            match build_host_rules(&c.config, table) {
                Err(e) => {
                    proof {
                        lemma_containers_prefix(containers@, table@, i + 1);
                    }
                    return Err(e);
                },
                Ok(host_rules) => {
                    let src = source_acl_exec(i);
                    push_str(&mut rules, "# ");
                    push_str(&mut rules, c.name.as_str());
                    push_str(&mut rules, "\n");
                    push_str(&mut rules, "acl ");
                    push_str(&mut rules, src.as_str());
                    push_str(&mut rules, " src ");
                    let ips = join_strs(&c.ips, " ");
                    push_str(&mut rules, ips.as_str());
                    push_str(&mut rules, "\n");
                    let mut prefix = owned("castor_");
                    let d = decimal_string(i as u64);
                    push_str(&mut prefix, d.as_str());
                    let mut cp = c.name.clone();
                    push_str(&mut cp, ": ");
                    let ghost srcv = src@;
                    let guards = vec![src];
                    assert(guards.deep_view() =~= seq![srcv]);
                    render_policy_rules(&mut rules, &host_rules, prefix.as_str(), cp.as_str(), &guards);
                },
            }
        }
        i = i + 1;
    }
    assert(containers@.take(containers@.len() as int) =~= containers@);
    if managed.len() > 0 {
        let mut m = owned("# Registered castors with source-specific policy.\n");
        push_str(&mut m, "acl managed_castors_src src ");
        let ips = join_strs(&managed, " ");
        push_str(&mut m, ips.as_str());
        push_str(&mut m, "\n");
        push_str(&mut m, "\n");
        push_str(&mut rules, m.as_str());
    } else {
        assert(rules@ =~= rules@ + managed_text(managed.deep_view()));
    }
    let guards: Vec<String> = if managed.len() == 0 {
        let g: Vec<String> = Vec::new();
        assert(g.deep_view() =~= global_guards(managed.deep_view()));
        g
    } else {
        let g = vec![owned("!managed_castors_src")];
        assert(g.deep_view() =~= global_guards(managed.deep_view()));
        g
    };
    match build_host_rules(global, table) {
        Err(e) => return Err(e),
        Ok(g) => {
            let none = String::new();
            render_policy_rules(&mut rules, &g, "global", none.as_str(), &guards);
        },
    }
    proof {
        reveal_strlit("{{CASTORS_POLICY_RULES}}");
    }
    Ok(replace_str(SQUID_TEMPLATE, POLICY_RULES_PLACEHOLDER, rules.as_str()))
}

/// Renders `squid.conf` for a single configuration with no registered
/// containers.
pub fn render_config(config: &ResolvedConfig, table: &[SecretReading]) -> (r: Result<
    String,
    SquidConfigError,
>)
    requires
        covers(table@, config.secrets@),
    ensures
        render_view(r) == rendered_policy(*config, Seq::empty(), table@),
{
    let none: Vec<ContainerPolicy> = Vec::new();
    assert(none@ =~= Seq::<ContainerPolicy>::empty());
    render_policy(config, none.as_slice(), table)
}

// ---------------------------------------------------------------------------
// Laws
// ---------------------------------------------------------------------------

/// Rules whose hosts never decrease.
pub open spec fn hosts_sorted(r: Seq<RuleView>) -> bool {
    forall|i: int, j: int| 0 <= i < j < r.len() ==> !seq_lt(#[trigger] r[j].host, #[trigger] r[i].host)
}

proof fn lemma_insert_rule(t: Seq<RuleView>, x: RuleView)
    ensures
        insert_rule(t, x).len() == t.len() + 1,
        forall|k: int|
            0 <= k < t.len() + 1 ==> #[trigger] insert_rule(t, x)[k] == x || exists|i: int|
                0 <= i < t.len() && insert_rule(t, x)[k] == t[i],
        hosts_sorted(t) ==> hosts_sorted(insert_rule(t, x)),
    decreases t.len(),
{
    let r = insert_rule(t, x);
    if t.len() == 0 || !seq_lt(x.host, t.last().host) {
        assert forall|k: int| 0 <= k < t.len() + 1 implies #[trigger] r[k] == x || exists|i: int|
            0 <= i < t.len() && r[k] == t[i] by {
            if k < t.len() {
                assert(r[k] == t[k]);
            }
        }
        if hosts_sorted(t) {
            assert forall|i: int, j: int| 0 <= i < j < r.len() implies !seq_lt(
                #[trigger] r[j].host,
                #[trigger] r[i].host,
            ) by {
                if j == t.len() {
                    let last = t.last();
                    crate::text::lemma_lt_total(x.host, last.host);
                    if i < t.len() - 1 {
                        if seq_lt(x.host, t[i].host) {
                            crate::text::lemma_lt_total(last.host, t[i].host);
                            if seq_lt(last.host, t[i].host) {
                            } else if last.host == t[i].host {
                            } else {
                                crate::text::lemma_lt_transitive(x.host, t[i].host, last.host);
                            }
                        }
                    }
                }
            }
        }
    } else {
        let t0 = t.drop_last();
        lemma_insert_rule(t0, x);
        let r0 = insert_rule(t0, x);
        assert(r == r0.push(t.last()));
        assert forall|k: int| 0 <= k < t.len() + 1 implies #[trigger] r[k] == x || exists|i: int|
            0 <= i < t.len() && r[k] == t[i] by {
            if k < t.len() {
                assert(r[k] == r0[k]);
                if r0[k] != x {
                    let i = choose|i: int| 0 <= i < t0.len() && r0[k] == t0[i];
                    assert(t[i] == t0[i]);
                }
            } else {
                assert(r[k] == t[t.len() - 1]);
            }
        }
        if hosts_sorted(t) {
            assert(hosts_sorted(t0));
            assert forall|i: int, j: int| 0 <= i < j < r.len() implies !seq_lt(
                #[trigger] r[j].host,
                #[trigger] r[i].host,
            ) by {
                if j == r.len() - 1 {
                    let last = t.last();
                    assert(r[j] == last);
                    assert(r[i] == r0[i]);
                    if r0[i] == x {
                        crate::text::lemma_lt_asymmetric(x.host, last.host);
                    } else {
                        let m = choose|m: int| 0 <= m < t0.len() && r0[i] == t0[m];
                        assert(t[m] == t0[m]);
                        assert(!seq_lt(t[t.len() - 1].host, t[m].host));
                    }
                } else {
                    assert(r[i] == r0[i]);
                    assert(r[j] == r0[j]);
                }
            }
        }
    }
}

/// Whatever order the allowlist is in, the rendered rules come out sorted
/// by host, one per allowlisted host.
pub proof fn law_rules_sorted_by_host(s: Seq<RuleView>)
    ensures
        sort_rules(s).len() == s.len(),
        hosts_sorted(sort_rules(s)),
    decreases s.len(),
{
    if s.len() > 0 {
        law_rules_sorted_by_host(s.drop_last());
        lemma_insert_rule(sort_rules(s.drop_last()), s.last());
    }
}

proof fn lemma_join_push(s: Seq<Seq<char>>, x: Seq<char>, sep: Seq<char>)
    ensures
        s.len() == 0 ==> join(s.push(x), sep) == x,
        s.len() > 0 ==> join(s.push(x), sep) == join(s, sep) + sep + x,
{
    assert(s.push(x).drop_last() =~= s);
    if s.len() == 0 {
        assert(s.push(x)[0] == x);
    }
}

/// A host rule is guarded by its port: the guard list its header lines and
/// its `http_access allow` line share ends with the rule's port ACL, right
/// after its destination ACL, when the host names a port, and with its
/// destination ACL when it does not. A host given with a port is thus
/// never allowed, nor given injected headers, on another port.
pub proof fn law_rule_guarded_by_port(
    r: RuleView,
    idx: nat,
    prefix: Seq<char>,
    cp: Seq<char>,
    base: Seq<Seq<char>>,
)
    ensures
        exists|g: Seq<char>, front: Seq<char>|
            {
                &&& rule_text(r, idx, prefix, cp, base) == rule_head(r, idx, prefix, cp)
                    + rule_port_line(r, idx, prefix) + injection_lines(r.injections, g)
                    + "http_access allow "@ + g + "\n"@ + "\n"@
                &&& match r.port {
                    Some(_) => g == front + prefix + "_"@ + decimal(idx) + "_dst"@ + " "@ + prefix
                        + "_"@ + decimal(idx) + "_port"@,
                    None => g == front + prefix + "_"@ + decimal(idx) + "_dst"@,
                }
            },
{
    let dst = acl_name(prefix, idx, "_dst"@);
    let port = acl_name(prefix, idx, "_port"@);
    let gs = rule_guards(base, r, prefix, idx);
    let g = join(gs, " "@);
    lemma_join_push(base, dst, " "@);
    let front = if base.len() == 0 {
        Seq::<char>::empty()
    } else {
        join(base, " "@) + " "@
    };
    assert(join(base.push(dst), " "@) =~= front + dst);
    match r.port {
        Some(_) => {
            lemma_join_push(base.push(dst), port, " "@);
            assert(g =~= front + prefix + "_"@ + decimal(idx) + "_dst"@ + " "@ + prefix + "_"@
                + decimal(idx) + "_port"@);
        },
        None => {
            assert(g =~= front + prefix + "_"@ + decimal(idx) + "_dst"@);
        },
    }
    assert(rule_text(r, idx, prefix, cp, base) == rule_head(r, idx, prefix, cp) + rule_port_line(
        r,
        idx,
        prefix,
    ) + injection_lines(r.injections, g) + "http_access allow "@ + g + "\n"@ + "\n"@);
    assert(match r.port {
        Some(_) => g == front + prefix + "_"@ + decimal(idx) + "_dst"@ + " "@ + prefix + "_"@
            + decimal(idx) + "_port"@,
        None => g == front + prefix + "_"@ + decimal(idx) + "_dst"@,
    });
}

} // verus!
