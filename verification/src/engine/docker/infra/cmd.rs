//! Argument lists for `docker compose ...` against the shared infra project,
//! and for the `docker` calls that inspect it.

use vstd::prelude::*;

use crate::engine::docker::push_arg;
use crate::text::{owned, push_str};

verus! {

/// Compose project name of the shared infra stack, fixed so that every
/// invocation targets the same project.
pub const PROJECT_NAME: &'static str = "castors-infra";

/// Shared internal network that castor containers attach to.
pub const SHARED_NETWORK_NAME: &'static str = crate::engine::docker::SHARED_NETWORK_NAME;

/// Runs mitmproxy once in the background until it has generated its CA,
/// then prints the public certificate.
pub const MITM_CA_EXPORT_SCRIPT: &'static str = "cert=/home/mitmproxy/.mitmproxy/mitmproxy-ca-cert.cer\nmitmdump --listen-host 127.0.0.1 --listen-port 8080 >/tmp/castors-mitm-ca.log 2>&1 &\npid=$!\nfor _ in 1 2 3 4 5 6 7 8 9 10; do\n  [ -s \"$cert\" ] && break\n  sleep 1\ndone\nkill \"$pid\" >/dev/null 2>&1 || true\nwait \"$pid\" >/dev/null 2>&1 || true\ncat \"$cert\"";

pub const HEALTH_FORMAT: &'static str = "{{.State.Status}}|{{if .State.Health}}{{.State.Health.Status}}{{else}}none{{end}}";

/// `compose -p castors-infra -f <file>`.
pub open spec fn compose_head(compose_file: Seq<char>) -> Seq<Seq<char>> {
    seq!["compose"@, "-p"@, PROJECT_NAME@, "-f"@, compose_file]
}

fn compose_args(compose_file: &str) -> (r: Vec<String>)
    ensures
        r.deep_view() == compose_head(compose_file@),
{
    let mut args: Vec<String> = Vec::new();
    push_arg(&mut args, "compose");
    push_arg(&mut args, "-p");
    push_arg(&mut args, PROJECT_NAME);
    push_arg(&mut args, "-f");
    push_arg(&mut args, compose_file);
    args
}

/// `docker compose -p castors-infra -f <file> [--profile <profile>] up -d`.
pub fn up_args(compose_file: &str, compose_profile: Option<&str>) -> (r: Vec<String>)
    ensures
        r.deep_view() == match compose_profile {
            Some(p) => compose_head(compose_file@) + seq!["--profile"@, p@, "up"@, "-d"@],
            None => compose_head(compose_file@) + seq!["up"@, "-d"@],
        },
{
    let mut args = compose_args(compose_file);
    let ghost head = args.deep_view();
    match compose_profile {
        Some(p) => {
            push_arg(&mut args, "--profile");
            push_arg(&mut args, p);
            push_arg(&mut args, "up");
            push_arg(&mut args, "-d");
            assert(args.deep_view() =~= head + seq!["--profile"@, p@, "up"@, "-d"@]);
        },
        None => {
            push_arg(&mut args, "up");
            push_arg(&mut args, "-d");
            assert(args.deep_view() =~= head + seq!["up"@, "-d"@]);
        },
    }
    args
}

/// `docker compose -p castors-infra -f <file> --profile mitm down`: the
/// optional MITM service is included so it goes down too; named volumes
/// are kept.
pub fn down_args(compose_file: &str) -> (r: Vec<String>)
    ensures
        r.deep_view() == compose_head(compose_file@) + seq![
            "--profile"@,
            crate::proxy::mitm::COMPOSE_PROFILE@,
            "down"@,
        ],
{
    let mut args = compose_args(compose_file);
    let ghost head = args.deep_view();
    push_arg(&mut args, "--profile");
    push_arg(&mut args, crate::proxy::mitm::COMPOSE_PROFILE);
    push_arg(&mut args, "down");
    assert(args.deep_view() =~= head + seq![
        "--profile"@,
        crate::proxy::mitm::COMPOSE_PROFILE@,
        "down"@,
    ]);
    args
}

/// Runs mitmproxy in a one-shot compose container that prints the public
/// CA certificate; a named volume keeps the CA afterwards.
pub fn export_mitm_ca_certificate_args(compose_file: &str) -> (r: Vec<String>)
    ensures
        r.deep_view() == compose_head(compose_file@) + seq![
            "--profile"@,
            crate::proxy::mitm::COMPOSE_PROFILE@,
            "run"@,
            "--rm"@,
            "--no-deps"@,
            "--entrypoint"@,
            "sh"@,
            "mitm"@,
            "-c"@,
            MITM_CA_EXPORT_SCRIPT@,
        ],
{
    let mut args = compose_args(compose_file);
    let ghost head = args.deep_view();
    push_arg(&mut args, "--profile");
    push_arg(&mut args, crate::proxy::mitm::COMPOSE_PROFILE);
    push_arg(&mut args, "run");
    push_arg(&mut args, "--rm");
    push_arg(&mut args, "--no-deps");
    push_arg(&mut args, "--entrypoint");
    push_arg(&mut args, "sh");
    push_arg(&mut args, "mitm");
    push_arg(&mut args, "-c");
    push_arg(&mut args, MITM_CA_EXPORT_SCRIPT);
    assert(args.deep_view() =~= head + seq![
        "--profile"@,
        crate::proxy::mitm::COMPOSE_PROFILE@,
        "run"@,
        "--rm"@,
        "--no-deps"@,
        "--entrypoint"@,
        "sh"@,
        "mitm"@,
        "-c"@,
        MITM_CA_EXPORT_SCRIPT@,
    ]);
    args
}

/// `docker inspect --format '<status>|<health or none>' <container>`.
pub fn inspect_container_health_args(container_name: &str) -> (r: Vec<String>)
    ensures
        r.deep_view() == seq!["inspect"@, "--format"@, HEALTH_FORMAT@, container_name@],
{
    let mut args: Vec<String> = Vec::new();
    push_arg(&mut args, "inspect");
    push_arg(&mut args, "--format");
    push_arg(&mut args, HEALTH_FORMAT);
    push_arg(&mut args, container_name);
    args
}

/// The arguments of the shared network's isolation check.
pub open spec fn network_args_view() -> Seq<Seq<char>> {
    seq!["network"@, "inspect"@, "--format"@, "{{.Internal}}"@, SHARED_NETWORK_NAME@]
}

/// `docker network inspect --format '{{.Internal}}' castors-shared`.
pub fn inspect_shared_network_internal_args() -> (r: Vec<String>)
    ensures
        r.deep_view() == network_args_view(),
{
    let mut args: Vec<String> = Vec::new();
    push_arg(&mut args, "network");
    push_arg(&mut args, "inspect");
    push_arg(&mut args, "--format");
    push_arg(&mut args, "{{.Internal}}");
    push_arg(&mut args, SHARED_NETWORK_NAME);
    args
}

/// `{{(index .NetworkSettings.Networks "castors-shared").IPAddress}}`.
pub open spec fn ip_format() -> Seq<char> {
    "{{(index .NetworkSettings.Networks \""@ + SHARED_NETWORK_NAME@ + "\").IPAddress}}"@
}

/// `docker inspect --format '<address on the shared network>' <container>`.
pub fn inspect_container_ip_args(container_name: &str) -> (r: Vec<String>)
    ensures
        r.deep_view() == seq!["inspect"@, "--format"@, ip_format(), container_name@],
{
    let mut args: Vec<String> = Vec::new();
    push_arg(&mut args, "inspect");
    push_arg(&mut args, "--format");
    let mut f = owned("{{(index .NetworkSettings.Networks \"");
    push_str(&mut f, SHARED_NETWORK_NAME);
    push_str(&mut f, "\").IPAddress}}");
    push_arg(&mut args, f.as_str());
    push_arg(&mut args, container_name);
    args
}

/// `docker exec castors-infra-squid squid -k reconfigure`.
pub fn squid_reconfigure_args() -> (r: Vec<String>)
    ensures
        r.deep_view() == seq![
            "exec"@,
            crate::proxy::squid::CONTAINER_NAME@,
            "squid"@,
            "-k"@,
            "reconfigure"@,
        ],
{
    let mut args: Vec<String> = Vec::new();
    push_arg(&mut args, "exec");
    push_arg(&mut args, crate::proxy::squid::CONTAINER_NAME);
    push_arg(&mut args, "squid");
    push_arg(&mut args, "-k");
    push_arg(&mut args, "reconfigure");
    args
}

} // verus!
