//! Shared infrastructure stack lifecycle on Docker.
//!
//! The stack is one compose project, [`cmd::PROJECT_NAME`], whose compose
//! file and proxy configuration are materialized under the generated infra
//! directory. This module knows where those files live and what each step
//! of bringing the stack up, refreshing its policy and tearing it down
//! decides from the output of the `docker` calls; it is deliberately
//! unaware of castors beyond their proxy policies.

pub mod cmd;

use vstd::prelude::*;

use crate::base::domain::{home_dir, path_join, CastorName};
use crate::base::paths::{state_dir_of, INFRA_SUBDIR, join_path};
use crate::config::schema::ProxyMode;
use crate::config::ResolvedConfig;
use crate::engine::docker::castors::{container_name, container_name_of, failed_with};
use crate::engine::docker::CommandOutput;
use crate::engine::types::{EngineError, ManagedContainer};
use crate::proxy::{mitm, squid};
use crate::text::{
    contains_seq, contains_str, lower, lower_str, owned, push_str, split_once, split_once_str,
    str_eq, trim, trim_str,
};

verus! {

pub const COMPOSE_FILENAME: &'static str = "compose.yaml";

pub const SQUID_FILENAME: &'static str = "squid.conf";

pub const MITM_CONFIG_DIR: &'static str = "mitm/config";

pub const MITM_SCRIPTS_DIR: &'static str = "mitm/scripts";

pub const MITM_POLICY_FILENAME: &'static str = "policy.json";

pub const MITM_SECRETS_FILENAME: &'static str = "castors-policy-secrets.json";

pub const MITM_POLICY_SCRIPT_FILENAME: &'static str = "policy.py";

/// How long to wait for a proxy container to become ready, in seconds.
pub const PROXY_READY_TIMEOUT_SECS: u64 = 20;

/// How often to poll a proxy container while waiting, in milliseconds.
pub const PROXY_READY_POLL_INTERVAL_MILLIS: u64 = 500;

/// The compose file of the shared stack: an internal network for castors,
/// a separate egress network for the proxies, Squid always and mitmproxy
/// under the `mitm` profile.
pub const COMPOSE_TEMPLATE: &'static str = "# Managed by castors; rewritten whenever the shared infrastructure is ensured.\nname: castors-infra\n\nservices:\n  squid:\n    image: ubuntu/squid:latest\n    container_name: castors-infra-squid\n    restart: unless-stopped\n    volumes:\n      - ./squid.conf:/etc/squid/squid.conf:ro\n      - castors-proxy-logs:/var/log/squid\n    networks:\n      - castors-shared\n      - castors-egress\n    labels:\n      castors.role: infra\n    healthcheck:\n      test: [\"CMD-SHELL\", \"squid -k check || exit 1\"]\n      interval: 2s\n      timeout: 2s\n      retries: 10\n\n  mitm:\n    image: mitmproxy/mitmproxy:latest\n    container_name: castors-infra-mitm\n    profiles: [\"mitm\"]\n    restart: unless-stopped\n    command:\n      - mitmdump\n      - --listen-port\n      - \"8080\"\n      - --set\n      - block_global=false\n      - -s\n      - /home/mitmproxy/scripts/policy.py\n    volumes:\n      - ./mitm/scripts:/home/mitmproxy/scripts:ro\n      - ./mitm/config:/home/mitmproxy/config:ro\n      - castors-mitm-ca:/home/mitmproxy/.mitmproxy\n    networks:\n      - castors-shared\n      - castors-egress\n    labels:\n      castors.role: infra\n\nnetworks:\n  castors-shared:\n    name: castors-shared\n    internal: true\n  castors-egress:\n    name: castors-egress\n\nvolumes:\n  castors-proxy-logs:\n  castors-mitm-ca:\n";

pub const NO_HOME_MSG: &'static str = "unable to locate user home directory";

pub const NOT_INTERNAL_MSG: &'static str = "shared network 'castors-shared' is not internal; remove existing castors/infra and recreate it to enforce proxy-only egress";

// ---------------------------------------------------------------------------
// Locations
// ---------------------------------------------------------------------------

/// `~/.castors/.state/infra` for the home directory `home`.
pub open spec fn infra_dir_of(home: Seq<char>) -> Seq<char> {
    path_join(state_dir_of(home), INFRA_SUBDIR@)
}

/// `<infra dir>/<rel>` for some home directory, or the missing-home error.
pub open spec fn under_infra(r: Result<String, EngineError>, rel: Seq<char>) -> bool {
    match r {
        Ok(p) => exists|h: Seq<char>| h.len() > 0 && p@ == path_join(infra_dir_of(h), rel),
        Err(e) => e matches EngineError::Backend(m) && m@ == NO_HOME_MSG@,
    }
}

/// `<infra dir>/<rel>` for the home directory `home`, or the missing-home
/// error when there is none.
pub fn infra_path_in(home: &Option<String>, rel: &str) -> (r: Result<String, EngineError>)
    ensures
        match home {
            Some(h) => r matches Ok(p) && p@ == path_join(infra_dir_of(h@), rel@),
            None => r matches Err(EngineError::Backend(m)) && m@ == NO_HOME_MSG@,
        },
{
    match crate::base::paths::state_entry_in(home, INFRA_SUBDIR) {
        Some(dir) => Ok(join_path(dir.as_str(), rel)),
        None => Err(EngineError::Backend(owned(NO_HOME_MSG))),
    }
}

/// `<infra dir>/<dir>/<file>` for the home directory `home`, or the
/// missing-home error when there is none.
pub fn infra_file_in(home: &Option<String>, dir: &str, file: &str) -> (r: Result<String, EngineError>)
    ensures
        match home {
            Some(h) => r matches Ok(p) && p@ == path_join(path_join(infra_dir_of(h@), dir@), file@),
            None => r matches Err(EngineError::Backend(m)) && m@ == NO_HOME_MSG@,
        },
{
    match infra_path_in(home, dir) {
        Ok(d) => Ok(join_path(d.as_str(), file)),
        Err(e) => Err(e),
    }
}

fn infra_path(rel: &str) -> (r: Result<String, EngineError>)
    ensures
        under_infra(r, rel@),
{
    let home = home_dir();
    infra_path_in(&home, rel)
}

/// Where the compose file is materialized.
pub fn compose_file_path() -> (r: Result<String, EngineError>)
    ensures
        under_infra(r, COMPOSE_FILENAME@),
{
    infra_path(COMPOSE_FILENAME)
}

/// Where the rendered `squid.conf` is materialized.
pub fn squid_file_path() -> (r: Result<String, EngineError>)
    ensures
        under_infra(r, SQUID_FILENAME@),
{
    infra_path(SQUID_FILENAME)
}

/// Directory of the MITM policy and secret bundle.
pub fn mitm_config_dir() -> (r: Result<String, EngineError>)
    ensures
        under_infra(r, MITM_CONFIG_DIR@),
{
    infra_path(MITM_CONFIG_DIR)
}

/// Directory of the MITM policy script.
pub fn mitm_scripts_dir() -> (r: Result<String, EngineError>)
    ensures
        under_infra(r, MITM_SCRIPTS_DIR@),
{
    infra_path(MITM_SCRIPTS_DIR)
}

/// `<infra dir>/<dir>/<file>` for some home directory, or the missing-home
/// error.
pub open spec fn under_infra_dir(r: Result<String, EngineError>, dir: Seq<char>, file: Seq<char>) -> bool {
    match r {
        Ok(p) => exists|h: Seq<char>|
            h.len() > 0 && p@ == path_join(path_join(infra_dir_of(h), dir), file),
        Err(e) => e matches EngineError::Backend(m) && m@ == NO_HOME_MSG@,
    }
}

fn infra_file(dir: &str, file: &str) -> (r: Result<String, EngineError>)
    ensures
        under_infra_dir(r, dir@, file@),
{
    let home = home_dir();
    infra_file_in(&home, dir, file)
}

/// Where the MITM policy is materialized.
pub fn mitm_policy_path() -> (r: Result<String, EngineError>)
    ensures
        under_infra_dir(r, MITM_CONFIG_DIR@, MITM_POLICY_FILENAME@),
{
    infra_file(MITM_CONFIG_DIR, MITM_POLICY_FILENAME)
}

/// Where the MITM secret bundle is materialized.
pub fn mitm_secrets_path() -> (r: Result<String, EngineError>)
    ensures
        under_infra_dir(r, MITM_CONFIG_DIR@, MITM_SECRETS_FILENAME@),
{
    infra_file(MITM_CONFIG_DIR, MITM_SECRETS_FILENAME)
}

/// Where the MITM policy script is materialized.
pub fn mitm_policy_script_path() -> (r: Result<String, EngineError>)
    ensures
        under_infra_dir(r, MITM_SCRIPTS_DIR@, MITM_POLICY_SCRIPT_FILENAME@),
{
    infra_file(MITM_SCRIPTS_DIR, MITM_POLICY_SCRIPT_FILENAME)
}

// ---------------------------------------------------------------------------
// Reading docker output
// ---------------------------------------------------------------------------

/// Readiness of a proxy container.
#[derive(Debug, PartialEq, Eq)]
pub enum ProxyStatus {
    Ready,
    /// Not ready yet; carries the observed `state|health`.
    Waiting(String),
}

/// The `(state, health)` of a health inspection, `unknown` health when the
/// output has no `|`.
pub open spec fn state_and_health(stdout: Seq<char>) -> (Seq<char>, Seq<char>) {
    let line = trim(stdout);
    match split_once(line, '|') {
        Some(p) => p,
        None => (line, "unknown"@),
    }
}

/// A proxy is ready when it runs and is healthy or has no health check.
pub open spec fn proxy_ready(stdout: Seq<char>) -> bool {
    let sh = state_and_health(stdout);
    sh.0 == "running"@ && (sh.1 == "healthy"@ || sh.1 == "none"@)
}

/// Parses `docker inspect` health output for a proxy container.
pub fn parse_proxy_status(stdout: &str) -> (r: ProxyStatus)
    ensures
        proxy_ready(stdout@) ==> r == ProxyStatus::Ready,
        !proxy_ready(stdout@) ==> (r matches ProxyStatus::Waiting(s) && s@ == state_and_health(
            stdout@,
        ).0 + "|"@ + state_and_health(stdout@).1),
{
    let line = trim_str(stdout);
    let (state, health) = match split_once_str(line.as_str(), '|') {
        Some(p) => p,
        None => (line.clone(), owned("unknown")),
    };
    if str_eq(state.as_str(), "running") && (str_eq(health.as_str(), "healthy") || str_eq(
        health.as_str(),
        "none",
    )) {
        ProxyStatus::Ready
    } else {
        let mut s = state;
        push_str(&mut s, "|");
        push_str(&mut s, health.as_str());
        ProxyStatus::Waiting(s)
    }
}

/// Whether health output shows a running container.
pub open spec fn running_state(stdout: Seq<char>) -> bool {
    match split_once(trim(stdout), '|') {
        Some(p) => p.0 == "running"@,
        None => false,
    }
}

/// Whether `docker inspect` health output shows a running container.
pub fn container_is_running(stdout: &str) -> (r: bool)
    ensures
        r == running_state(stdout@),
{
    let line = trim_str(stdout);
    match split_once_str(line.as_str(), '|') {
        Some((state, _)) => str_eq(state.as_str(), "running"),
        None => false,
    }
}

/// Errors meaning the container is gone or stopped, compared without case.
pub open spec fn missing_or_stopped(stderr: Seq<char>) -> bool {
    let l = lower(stderr);
    contains_seq(l, "no such object"@) || contains_seq(l, "no such container"@) || contains_seq(
        l,
        "is not running"@,
    )
}

/// Whether an error output means the container is gone or stopped.
pub fn is_missing_or_stopped_container(stderr: &str) -> (r: bool)
    ensures
        r == missing_or_stopped(stderr@),
{
    let l = lower_str(stderr);
    contains_str(l.as_str(), "no such object") || contains_str(l.as_str(), "no such container")
        || contains_str(l.as_str(), "is not running")
}

/// Whether `docker network inspect --format '{{.Internal}}'` says `true`.
pub fn shared_network_is_internal(stdout: &str) -> (r: bool)
    ensures
        r == (trim(stdout@) == "true"@),
{
    let t = trim_str(stdout);
    str_eq(t.as_str(), "true")
}

fn backend(prefix: &str, detail: &str) -> (r: EngineError)
    ensures
        r matches EngineError::Backend(m) && m@ == prefix@ + detail@,
{
    let mut m = owned(prefix);
    push_str(&mut m, detail);
    EngineError::Backend(m)
}

fn backend_trimmed(prefix: &str, stderr: &str) -> (r: EngineError)
    ensures
        r matches EngineError::Backend(m) && m@ == prefix@ + trim(stderr@),
{
    let t = trim_str(stderr);
    backend(prefix, t.as_str())
}

// ---------------------------------------------------------------------------
// Bringing the stack up
// ---------------------------------------------------------------------------

/// What bringing the stack up involves for a proxy mode: the compose
/// profile to enable, and the proxy containers to wait for (Squid always,
/// then mitmproxy when its profile is enabled).
#[derive(Debug, PartialEq, Eq)]
pub struct EnsurePlan {
    pub profile: Option<String>,
    pub wait_for: Vec<String>,
}

/// Plans bringing the shared stack up for `mode`.
pub fn ensure_running(mode: ProxyMode) -> (r: EnsurePlan)
    ensures
        match mode {
            ProxyMode::Squid => r.profile is None && r.wait_for.deep_view() == seq![
                squid::CONTAINER_NAME@,
            ],
            ProxyMode::Mitm => (r.profile matches Some(p) && p@ == mitm::COMPOSE_PROFILE@)
                && r.wait_for.deep_view() == seq![squid::CONTAINER_NAME@, mitm::CONTAINER_NAME@],
        },
{
    let mut wait_for: Vec<String> = Vec::new();
    wait_for.push(owned(squid::CONTAINER_NAME));
    match mode {
        ProxyMode::Squid => {
            assert(wait_for.deep_view() =~= seq![squid::CONTAINER_NAME@]);
            EnsurePlan { profile: None, wait_for }
        },
        ProxyMode::Mitm => {
            wait_for.push(owned(mitm::CONTAINER_NAME));
            assert(wait_for.deep_view() =~= seq![squid::CONTAINER_NAME@, mitm::CONTAINER_NAME@]);
            EnsurePlan { profile: Some(owned(mitm::COMPOSE_PROFILE)), wait_for }
        },
    }
}

/// The `docker compose up` arguments for the compose file and proxy mode.
pub open spec fn up_args_for(compose_file: Seq<char>, mode: ProxyMode) -> Seq<Seq<char>> {
    match mode {
        ProxyMode::Squid => cmd::compose_head(compose_file) + seq!["up"@, "-d"@],
        ProxyMode::Mitm => cmd::compose_head(compose_file) + seq![
            "--profile"@,
            mitm::COMPOSE_PROFILE@,
            "up"@,
            "-d"@,
        ],
    }
}

/// The proxy containers to wait for in a proxy mode, in order.
pub open spec fn wait_list(mode: ProxyMode) -> Seq<Seq<char>> {
    match mode {
        ProxyMode::Squid => seq![squid::CONTAINER_NAME@],
        ProxyMode::Mitm => seq![squid::CONTAINER_NAME@, mitm::CONTAINER_NAME@],
    }
}

/// The health inspection of a container.
pub open spec fn health_args_for(container: Seq<char>) -> Seq<Seq<char>> {
    seq!["inspect"@, "--format"@, cmd::HEALTH_FORMAT@, container]
}

/// The state shown before a proxy container was inspected.
pub const NOT_INSPECTED: &'static str = "not yet inspected";

/// What bringing the shared stack up asks docker next.
#[derive(Clone, Copy, Debug, PartialEq, Eq, Structural)]
pub enum EnsureRequest {
    /// `docker compose up`.
    ComposeUp,
    /// The shared network's isolation.
    InspectNetwork,
    /// The health of the proxy container being waited for.
    PollProxy,
}

/// The state of bringing the shared stack up: the docker arguments of the
/// next call, the proxy containers to wait for and which one is awaited,
/// and the state it was last seen in.
#[derive(Debug)]
pub struct EnsureFlow {
    pub next: EnsureRequest,
    pub command: Vec<String>,
    pub wait_for: Vec<String>,
    pub waiting: usize,
    pub last_state: String,
}

/// What answered the last request: the docker call's output, or, before a
/// poll, the news that the proxy being waited for has had its time.
#[derive(Debug)]
pub enum EnsureAnswer {
    Output(CommandOutput),
    TimedOut,
}

/// How bringing the stack up goes on.
#[derive(Debug)]
pub enum EnsureProgress {
    Continue(EnsureFlow),
    Finish(Result<(), EngineError>),
}

/// `f` is a state of bringing the stack up.
pub open spec fn ensure_ready(f: EnsureFlow) -> bool {
    &&& f.waiting < f.wait_for@.len()
    &&& f.next == EnsureRequest::PollProxy ==> f.command.deep_view() == health_args_for(
        f.wait_for@[f.waiting as int]@,
    )
}

/// Starts bringing the shared stack up for `mode` with the materialized
/// compose file: the first call is `docker compose up`, enabling the MITM
/// profile when the mode needs it.
pub fn ensure_begin(mode: ProxyMode, compose_file: &str) -> (r: EnsureFlow)
    ensures
        r.next == EnsureRequest::ComposeUp,
        r.command.deep_view() == up_args_for(compose_file@, mode),
        r.wait_for.deep_view() == wait_list(mode),
        r.waiting == 0,
        r.last_state@ == NOT_INSPECTED@,
        ensure_ready(r),
{
    let plan = ensure_running(mode);
    let command = match &plan.profile {
        Some(p) => cmd::up_args(compose_file, Some(p.as_str())),
        None => cmd::up_args(compose_file, None),
    };
    assert(plan.wait_for.deep_view().len() == plan.wait_for@.len());
    EnsureFlow {
        next: EnsureRequest::ComposeUp,
        command,
        wait_for: plan.wait_for,
        waiting: 0,
        last_state: owned(NOT_INSPECTED),
    }
}

/// Goes on bringing the stack up once `flow.next` was answered. A failed
/// `compose up` ends it with that failure and nothing more is run; then the
/// shared network must be internal; then each proxy container is polled,
/// in order, until it is ready. A container that has had its time ends it
/// with the state it was last seen in; the next one starts unseen.
pub fn ensure_step(flow: EnsureFlow, answer: EnsureAnswer) -> (r: EnsureProgress)
    requires
        ensure_ready(flow),
        flow.next != EnsureRequest::PollProxy ==> answer is Output,
    ensures
        match answer {
            EnsureAnswer::TimedOut => r matches EnsureProgress::Finish(res) && failed_with(
                res,
                "proxy container '"@ + flow.wait_for@[flow.waiting as int]@
                    + "' did not become ready within "@ + crate::text::decimal(
                    PROXY_READY_TIMEOUT_SECS as nat,
                ) + "s (last state: "@ + flow.last_state@ + ")"@,
            ),
            EnsureAnswer::Output(o) => match flow.next {
                EnsureRequest::ComposeUp => if o.success {
                    r matches EnsureProgress::Continue(f) && f.next == EnsureRequest::InspectNetwork
                        && f.command.deep_view() == cmd::network_args_view() && f.wait_for
                        == flow.wait_for && f.waiting == flow.waiting && f.last_state
                        == flow.last_state
                } else {
                    r matches EnsureProgress::Finish(res) && failed_with(
                        res,
                        "docker compose up failed: "@ + trim(o.stderr@),
                    )
                },
                EnsureRequest::InspectNetwork => if !o.success {
                    r matches EnsureProgress::Finish(res) && failed_with(
                        res,
                        "failed to inspect shared network isolation: "@ + trim(o.stderr@),
                    )
                } else if trim(o.stdout@) != "true"@ {
                    r matches EnsureProgress::Finish(res) && failed_with(res, NOT_INTERNAL_MSG@)
                } else {
                    r matches EnsureProgress::Continue(f) && f.next == EnsureRequest::PollProxy
                        && f.wait_for == flow.wait_for && f.waiting == 0 && f.last_state@
                        == NOT_INSPECTED@ && ensure_ready(f)
                },
                EnsureRequest::PollProxy => match poll_view(o) {
                    Some(st) => r matches EnsureProgress::Continue(f) && f.next
                        == EnsureRequest::PollProxy && f.wait_for == flow.wait_for && f.waiting
                        == flow.waiting && f.last_state@ == st && ensure_ready(f),
                    None => if flow.waiting + 1 < flow.wait_for@.len() {
                        r matches EnsureProgress::Continue(f) && f.next == EnsureRequest::PollProxy
                            && f.wait_for == flow.wait_for && f.waiting == flow.waiting + 1
                            && f.last_state@ == NOT_INSPECTED@ && ensure_ready(f)
                    } else {
                        r matches EnsureProgress::Finish(Ok(()))
                    },
                },
            },
        },
{
    match answer {
        EnsureAnswer::TimedOut => {
            let e = proxy_not_ready(flow.wait_for[flow.waiting].as_str(), flow.last_state.as_str());
            EnsureProgress::Finish(Err(e))
        },
        EnsureAnswer::Output(o) => match flow.next {
            EnsureRequest::ComposeUp => match check_compose_up(&o) {
                Ok(()) => EnsureProgress::Continue(
                    EnsureFlow {
                        next: EnsureRequest::InspectNetwork,
                        command: cmd::inspect_shared_network_internal_args(),
                        wait_for: flow.wait_for,
                        waiting: flow.waiting,
                        last_state: flow.last_state,
                    },
                ),
                Err(e) => EnsureProgress::Finish(Err(e)),
            },
            EnsureRequest::InspectNetwork => match verify_shared_network_is_internal(&o) {
                Ok(()) => {
                    let command = cmd::inspect_container_health_args(flow.wait_for[0].as_str());
                    EnsureProgress::Continue(
                        EnsureFlow {
                            next: EnsureRequest::PollProxy,
                            command,
                            wait_for: flow.wait_for,
                            waiting: 0,
                            last_state: owned(NOT_INSPECTED),
                        },
                    )
                },
                Err(e) => EnsureProgress::Finish(Err(e)),
            },
            EnsureRequest::PollProxy => match proxy_poll(&o) {
                ProxyStatus::Waiting(st) => EnsureProgress::Continue(
                    EnsureFlow {
                        next: EnsureRequest::PollProxy,
                        command: flow.command,
                        wait_for: flow.wait_for,
                        waiting: flow.waiting,
                        last_state: st,
                    },
                ),
                ProxyStatus::Ready => {
                    if flow.waiting < flow.wait_for.len() - 1 {
                        let waiting = flow.waiting + 1;
                        let command = cmd::inspect_container_health_args(
                            flow.wait_for[waiting].as_str(),
                        );
                        EnsureProgress::Continue(
                            EnsureFlow {
                                next: EnsureRequest::PollProxy,
                                command,
                                wait_for: flow.wait_for,
                                waiting,
                                last_state: owned(NOT_INSPECTED),
                            },
                        )
                    } else {
                        EnsureProgress::Finish(Ok(()))
                    }
                },
            },
        },
    }
}

/// What `docker compose up` reported.
pub fn check_compose_up(output: &CommandOutput) -> (r: Result<(), EngineError>)
    ensures
        output.success ==> r is Ok,
        !output.success ==> failed_with(r, "docker compose up failed: "@ + trim(output.stderr@)),
{
    if output.success {
        Ok(())
    } else {
        Err(backend_trimmed("docker compose up failed: ", output.stderr.as_str()))
    }
}

/// What the shared network inspection reported: the network must be
/// internal, so castors cannot bypass the proxy.
pub fn verify_shared_network_is_internal(output: &CommandOutput) -> (r: Result<(), EngineError>)
    ensures
        !output.success ==> failed_with(
            r,
            "failed to inspect shared network isolation: "@ + trim(output.stderr@),
        ),
        output.success && trim(output.stdout@) == "true"@ ==> r is Ok,
        output.success && trim(output.stdout@) != "true"@ ==> failed_with(r, NOT_INTERNAL_MSG@),
{
    if !output.success {
        return Err(
            backend_trimmed("failed to inspect shared network isolation: ", output.stderr.as_str()),
        );
    }
    if shared_network_is_internal(output.stdout.as_str()) {
        return Ok(());
    }
    Err(EngineError::Backend(owned(NOT_INTERNAL_MSG)))
}

/// One poll of a proxy container: its readiness, or the failed inspection's
/// trimmed error as the state last seen.
/// What one poll of a proxy container shows: nothing when it is ready,
/// else the state last seen (the failed inspection's trimmed error, or the
/// observed `state|health`).
pub open spec fn poll_view(output: CommandOutput) -> Option<Seq<char>> {
    if !output.success {
        Some(trim(output.stderr@))
    } else if proxy_ready(output.stdout@) {
        None
    } else {
        Some(state_and_health(output.stdout@).0 + "|"@ + state_and_health(output.stdout@).1)
    }
}

pub fn proxy_poll(output: &CommandOutput) -> (r: ProxyStatus)
    ensures
        match poll_view(*output) {
            None => r == ProxyStatus::Ready,
            Some(s) => r matches ProxyStatus::Waiting(w) && w@ == s,
        },
        output.success ==> (proxy_ready(output.stdout@) <==> r == ProxyStatus::Ready),
        !output.success ==> (r matches ProxyStatus::Waiting(s) && s@ == trim(output.stderr@)),
{
    if output.success {
        parse_proxy_status(output.stdout.as_str())
    } else {
        ProxyStatus::Waiting(trim_str(output.stderr.as_str()))
    }
}

/// The error when a proxy container did not become ready in time.
pub fn proxy_not_ready(container: &str, last_state: &str) -> (r: EngineError)
    ensures
        r matches EngineError::Backend(m) && m@ == "proxy container '"@ + container@
            + "' did not become ready within "@ + crate::text::decimal(PROXY_READY_TIMEOUT_SECS as nat)
            + "s (last state: "@ + last_state@ + ")"@,
{
    let mut m = owned("proxy container '");
    push_str(&mut m, container);
    push_str(&mut m, "' did not become ready within ");
    let d = crate::text::decimal_string(PROXY_READY_TIMEOUT_SECS);
    push_str(&mut m, d.as_str());
    push_str(&mut m, "s (last state: ");
    push_str(&mut m, last_state);
    push_str(&mut m, ")");
    EngineError::Backend(m)
}

// ---------------------------------------------------------------------------
// Refreshing the proxy policy
// ---------------------------------------------------------------------------

/// What happens after inspecting the Squid container before a reconfigure.
#[derive(Debug, PartialEq, Eq)]
pub enum ReconfigureStep {
    /// Nothing more to do, with this outcome.
    Done(Result<(), EngineError>),
    /// Squid runs: ask it to reload its configuration.
    Reconfigure,
}

/// Decides from the Squid health inspection whether to reconfigure: a
/// missing or stopped container needs nothing, nor does one that does not
/// run; another inspection failure is an error.
pub fn reconfigure_after_inspect(output: &CommandOutput) -> (r: ReconfigureStep)
    ensures
        !output.success && missing_or_stopped(output.stderr@) ==> r == ReconfigureStep::Done(
            Ok(()),
        ),
        !output.success && !missing_or_stopped(output.stderr@) ==> (r matches ReconfigureStep::Done(
            res,
        ) && failed_with(
            res,
            "failed to inspect Squid container before reconfigure: "@ + trim(output.stderr@),
        )),
        output.success && !running_state(output.stdout@) ==> r == ReconfigureStep::Done(Ok(())),
        output.success && running_state(output.stdout@) ==> r == ReconfigureStep::Reconfigure,
{
    if !output.success {
        if is_missing_or_stopped_container(output.stderr.as_str()) {
            return ReconfigureStep::Done(Ok(()));
        }
        return ReconfigureStep::Done(
            Err(
                backend_trimmed(
                    "failed to inspect Squid container before reconfigure: ",
                    output.stderr.as_str(),
                ),
            ),
        );
    }
    if !container_is_running(output.stdout.as_str()) {
        return ReconfigureStep::Done(Ok(()));
    }
    ReconfigureStep::Reconfigure
}

/// What `squid -k reconfigure` reported: a container that went away or
/// stopped meanwhile is fine.
pub fn reconfigure_after_signal(output: &CommandOutput) -> (r: Result<(), EngineError>)
    ensures
        (output.success || missing_or_stopped(output.stderr@)) ==> r is Ok,
        !(output.success || missing_or_stopped(output.stderr@)) ==> failed_with(
            r,
            "failed to reconfigure Squid after policy refresh: "@ + trim(output.stderr@),
        ),
{
    if output.success {
        return Ok(());
    }
    if is_missing_or_stopped_container(output.stderr.as_str()) {
        return Ok(());
    }
    Err(
        backend_trimmed(
            "failed to reconfigure Squid after policy refresh: ",
            output.stderr.as_str(),
        ),
    )
}

/// The address of a castor on the shared network, from `docker inspect`:
/// none when the container is gone or has no address.
pub fn inspect_castor_ip(name: &CastorName, output: &CommandOutput) -> (r: Result<
    Option<String>,
    EngineError,
>)
    ensures
        output.success ==> {
            let ip = trim(output.stdout@);
            if ip.len() > 0 && ip != "<no value>"@ {
                r matches Ok(Some(s)) && s@ == ip
            } else {
                r matches Ok(None)
            }
        },
        !output.success && (contains_seq(output.stderr@, "No such object"@) || contains_seq(
            output.stderr@,
            "No such container"@,
        )) ==> r matches Ok(None),
        !output.success && !(contains_seq(output.stderr@, "No such object"@) || contains_seq(
            output.stderr@,
            "No such container"@,
        )) ==> failed_with(
            r,
            "failed to inspect IP for castor '"@ + name@ + "': "@ + trim(output.stderr@),
        ),
{
    if !output.success {
        if contains_str(output.stderr.as_str(), "No such object") || contains_str(
            output.stderr.as_str(),
            "No such container",
        ) {
            return Ok(None);
        }
        let mut m = owned("failed to inspect IP for castor '");
        push_str(&mut m, name.as_str());
        push_str(&mut m, "': ");
        let t = trim_str(output.stderr.as_str());
        push_str(&mut m, t.as_str());
        return Err(EngineError::Backend(m));
    }
    let ip = trim_str(output.stdout.as_str());
    if !crate::text::is_empty_str(ip.as_str()) && !str_eq(ip.as_str(), "<no value>") {
        Ok(Some(ip))
    } else {
        Ok(None)
    }
}

/// The policy entry of a registered castor: its container name, its
/// address if it has one, and its resolved configuration.
pub fn container_policy(name: &CastorName, ip: Option<String>, config: ResolvedConfig) -> (r:
    squid::ContainerPolicy)
    ensures
        r.name@ == container_name_of(name@),
        r.ips.deep_view() == match ip {
            Some(a) => seq![a@],
            None => Seq::<Seq<char>>::empty(),
        },
        r.config == config,
{
    let mut ips: Vec<String> = Vec::new();
    match ip {
        Some(a) => {
            let ghost av = a@;
            ips.push(a);
            assert(ips.deep_view() =~= seq![av]);
        },
        None => {
            assert(ips.deep_view() =~= Seq::<Seq<char>>::empty());
        },
    }
    squid::ContainerPolicy { name: container_name(name), ips, config }
}

/// `b` carries the same policy as `a`.
pub open spec fn same_policy(a: squid::ContainerPolicy, b: mitm::ContainerPolicy) -> bool {
    &&& b.name@ == a.name@
    &&& b.ips.deep_view() == a.ips.deep_view()
    &&& b.config.allowed_hosts@ == a.config.allowed_hosts@
    &&& b.config.env@ == a.config.env@
    &&& b.config.proxy == a.config.proxy
    &&& b.config.secrets@ == a.config.secrets@
}

/// The policies of the castors that use mitmproxy, in order.
pub open spec fn mitm_only(cs: Seq<squid::ContainerPolicy>) -> Seq<squid::ContainerPolicy>
    decreases cs.len(),
{
    if cs.len() == 0 {
        Seq::empty()
    } else if cs.last().config.proxy == ProxyMode::Mitm {
        mitm_only(cs.drop_last()).push(cs.last())
    } else {
        mitm_only(cs.drop_last())
    }
}

fn clone_strings(v: &Vec<String>) -> (r: Vec<String>)
    ensures
        r.deep_view() == v.deep_view(),
{
    let mut r: Vec<String> = Vec::new();
    let mut i: usize = 0;
    while i < v.len()
        invariant
            i <= v@.len(),
            r.deep_view() == v.deep_view().take(i as int),
        decreases v.len() - i,
    {
        let ghost before = r.deep_view();
        r.push(v[i].clone());
        assert(r.deep_view() =~= before.push(v[i as int]@));
        assert(v.deep_view().take(i + 1) =~= v.deep_view().take(i as int).push(v[i as int]@));
        i = i + 1;
    }
    assert(v.deep_view().take(v@.len() as int) =~= v.deep_view());
    r
}

/// The policies the MITM proxy enforces: those of the castors that use it.
pub fn mitm_policies(containers: &Vec<squid::ContainerPolicy>) -> (r: Vec<mitm::ContainerPolicy>)
    ensures
        r@.len() == mitm_only(containers@).len(),
        forall|i: int| 0 <= i < r@.len() ==> same_policy(mitm_only(containers@)[i], #[trigger] r@[i]),
{
    let mut out: Vec<mitm::ContainerPolicy> = Vec::new();
    let mut i: usize = 0;
    assert(containers@.take(0) =~= Seq::<squid::ContainerPolicy>::empty());
    while i < containers.len()
        invariant
            i <= containers@.len(),
            out@.len() == mitm_only(containers@.take(i as int)).len(),
            forall|j: int|
                0 <= j < out@.len() ==> same_policy(
                    mitm_only(containers@.take(i as int))[j],
                    #[trigger] out@[j],
                ),
        decreases containers.len() - i,
    {
        let c = &containers[i];
        let ghost pre = containers@.take(i as int);
        assert(containers@.take(i + 1).drop_last() =~= pre);
        assert(containers@.take(i + 1).last() == containers@[i as int]);
        if c.config.proxy == ProxyMode::Mitm {
            let p = mitm::ContainerPolicy {
                name: c.name.clone(),
                ips: clone_strings(&c.ips),
                config: c.config.clone(),
            };
            out.push(p);
        }
        i = i + 1;
    }
    assert(containers@.take(containers@.len() as int) =~= containers@);
    out
}

/// What to write when the MITM policy files may be missing.
#[derive(Debug, PartialEq, Eq)]
pub enum EmptyPolicyStep {
    /// No policy yet: write this empty policy and its empty bundle.
    WriteBoth(mitm::MitmPolicy),
    /// A policy but no bundle: write an empty bundle.
    WriteEmptySecrets,
    /// Both exist: leave them.
    Nothing,
}

/// Decides how to make sure the MITM proxy has a policy to start with: an
/// existing policy is never overwritten.
pub fn materialize_empty_mitm_policy_if_missing(policy_exists: bool, secrets_exists: bool) -> (r:
    EmptyPolicyStep)
    ensures
        !policy_exists ==> (r matches EmptyPolicyStep::WriteBoth(p) && p.containers@.len() == 0
            && p.allow_domains@.len() == 0 && p.inject_headers@.len() == 0 && p.secrets@.len()
            == 0),
        policy_exists && !secrets_exists ==> r == EmptyPolicyStep::WriteEmptySecrets,
        policy_exists && secrets_exists ==> r == EmptyPolicyStep::Nothing,
{
    if !policy_exists {
        EmptyPolicyStep::WriteBoth(
            mitm::MitmPolicy {
                containers: Vec::new(),
                allow_domains: Vec::new(),
                inject_headers: Vec::new(),
                secrets: Vec::new(),
            },
        )
    } else if !secrets_exists {
        EmptyPolicyStep::WriteEmptySecrets
    } else {
        EmptyPolicyStep::Nothing
    }
}

// ---------------------------------------------------------------------------
// Certificate and teardown
// ---------------------------------------------------------------------------

/// What the one-shot CA export reported: the certificate bytes it printed,
/// or why there are none.
pub fn export_mitm_ca_certificate(output: &CommandOutput, certificate: Vec<u8>) -> (r: Result<
    Vec<u8>,
    EngineError,
>)
    ensures
        !output.success ==> failed_with(
            r,
            "failed to generate MITM CA certificate: "@ + trim(output.stderr@),
        ),
        output.success && certificate@.len() == 0 ==> failed_with(
            r,
            "failed to generate MITM CA certificate: command produced no certificate"@,
        ),
        output.success && certificate@.len() > 0 ==> r == Ok::<Vec<u8>, EngineError>(
            certificate,
        ),
{
    if !output.success {
        return Err(
            backend_trimmed("failed to generate MITM CA certificate: ", output.stderr.as_str()),
        );
    }
    if certificate.len() == 0 {
        return Err(
            EngineError::Backend(
                owned("failed to generate MITM CA certificate: command produced no certificate"),
            ),
        );
    }
    Ok(certificate)
}

/// Whether the shared stack is idle and may be torn down, from the managed
/// containers the backend lists: only when none remain. A failed listing
/// is passed on.
pub fn teardown_wanted(managed: Result<Vec<ManagedContainer>, EngineError>) -> (r: Result<bool, EngineError>)
    ensures
        match managed {
            Ok(v) => r == Ok::<bool, EngineError>(v@.len() == 0),
            Err(e) => r == Err::<bool, EngineError>(e),
        },
{
    match managed {
        Ok(v) => Ok(v.len() == 0),
        Err(e) => Err(e),
    }
}

/// What `docker compose down` reported.
pub fn teardown(output: &CommandOutput) -> (r: Result<(), EngineError>)
    ensures
        output.success ==> r is Ok,
        !output.success ==> failed_with(r, "docker compose down failed: "@ + trim(output.stderr@)),
{
    if output.success {
        Ok(())
    } else {
        Err(backend_trimmed("docker compose down failed: ", output.stderr.as_str()))
    }
}

} // verus!
