//! Argument lists for `docker run / exec / start / inspect / ps / rm`
//! against single castor containers.

use vstd::prelude::*;

use crate::base::domain::CastorName;
use crate::base::registry::CastorEntry;
use crate::config::schema::{EnvVar, ProxyMode};
use crate::config::ResolvedConfig;
use crate::engine::docker::castors::{container_name, container_name_of};
use crate::engine::docker::labels::{NAME_KEY, ROLE_CASTOR, ROLE_KEY};
use crate::engine::docker::{push_arg, SHARED_NETWORK_NAME};
use crate::proxy::{service, service_url, ProxyService};
use crate::text::{decimal, owned, push_str};

verus! {

/// Where the host directory is mounted inside a castor container.
pub const WORKSPACE_PATH: &'static str = "/workspace";

/// Shadowed by a read-only tmpfs so the agent cannot read the operator's
/// project config.
pub const PROJECT_CONFIG_SHADOW: &'static str = "/workspace/.castors";

/// Hosts that stay local to the castor instead of going through the proxy.
pub const NO_PROXY_VALUE: &'static str = "localhost,127.0.0.1,::1";

/// Script run by `/bin/sh -c` when no shell is given: the first executable
/// among zsh, bash and sh.
pub const EXEC_SHELL_AUTO_SCRIPT: &'static str = "for s in /bin/zsh /bin/bash /bin/sh; do [ -x \"$s\" ] && exec \"$s\"; done; exec /bin/sh";

/// `KEY=VALUE`.
pub open spec fn env_assignment(key: Seq<char>, value: Seq<char>) -> Seq<char> {
    key + "="@ + value
}

/// `-e KEY=VALUE` for each variable, in order.
pub open spec fn env_args(vars: Seq<EnvVar>) -> Seq<Seq<char>>
    decreases vars.len(),
{
    if vars.len() == 0 {
        Seq::empty()
    } else {
        env_args(vars.drop_last()).push("-e"@).push(
            env_assignment(vars.last().key@, vars.last().value@),
        )
    }
}

/// The proxy variables every castor gets, pointing at the proxy of `mode`.
pub open spec fn proxy_env_args(url: Seq<char>) -> Seq<Seq<char>> {
    seq![
        "-e"@,
        env_assignment("HTTP_PROXY"@, url),
        "-e"@,
        env_assignment("http_proxy"@, url),
        "-e"@,
        env_assignment("HTTPS_PROXY"@, url),
        "-e"@,
        env_assignment("https_proxy"@, url),
        "-e"@,
        env_assignment("NO_PROXY"@, NO_PROXY_VALUE@),
        "-e"@,
        env_assignment("no_proxy"@, NO_PROXY_VALUE@),
    ]
}

/// The fixed framing of `docker run`: detached, named and labelled,
/// hardened (no capabilities, no privilege escalation, scratch tmpfs),
/// attached to the shared internal network, with the workdir mounted and the
/// project config shadowed.
pub open spec fn run_head(name: Seq<char>, mount_dir: Seq<char>) -> Seq<Seq<char>> {
    seq![
        "run"@,
        "-d"@,
        "--name"@,
        container_name_of(name),
        "--label"@,
        ROLE_KEY@ + "="@ + ROLE_CASTOR@,
        "--label"@,
        NAME_KEY@ + "="@ + name,
        "--cap-drop"@,
        "ALL"@,
        "--security-opt"@,
        "no-new-privileges"@,
        "--tmpfs"@,
        "/tmp"@,
        "--tmpfs"@,
        "/run"@,
        "--tmpfs"@,
        "/var/tmp"@,
        "--network"@,
        SHARED_NETWORK_NAME@,
        "-v"@,
        mount_dir + ":"@ + WORKSPACE_PATH@,
        "--mount"@,
        "type=tmpfs,destination="@ + PROJECT_CONFIG_SHADOW@ + ",readonly"@,
    ]
}

/// The whole `docker run` argument list: framing, the configured variables
/// in key order, then the proxy variables, then the workdir and the image.
pub open spec fn run_args_of(entry: CastorEntry, config: ResolvedConfig) -> Seq<Seq<char>> {
    run_head(entry.name@, entry.mount_dir@) + env_args(config.env@) + proxy_env_args(
        service_url(config.proxy),
    ) + seq!["-w"@, WORKSPACE_PATH@, entry.image@]
}

fn push_env(args: &mut Vec<String>, key: &str, value: &str)
    ensures
        final(args).deep_view() == old(args).deep_view().push("-e"@).push(
            env_assignment(key@, value@),
        ),
{
    push_arg(args, "-e");
    let mut kv = owned(key);
    push_str(&mut kv, "=");
    push_str(&mut kv, value);
    let ghost before = args.deep_view();
    let ghost kvv = kv@;
    args.push(kv);
    assert(args.deep_view() =~= before.push(kvv));
}

/// `docker run -d --name ... IMAGE` for a castor (see [`run_args_of`]).
pub fn run_args(entry: &CastorEntry, config: &ResolvedConfig) -> (r: Vec<String>)
    ensures
        r.deep_view() == run_args_of(*entry, *config),
{
    let mut args: Vec<String> = Vec::new();
    push_arg(&mut args, "run");
    push_arg(&mut args, "-d");
    push_arg(&mut args, "--name");
    let cname = container_name(&entry.name);
    push_arg(&mut args, cname.as_str());
    push_arg(&mut args, "--label");
    let mut role = owned(ROLE_KEY);
    push_str(&mut role, "=");
    push_str(&mut role, ROLE_CASTOR);
    push_arg(&mut args, role.as_str());
    push_arg(&mut args, "--label");
    let mut nm = owned(NAME_KEY);
    push_str(&mut nm, "=");
    push_str(&mut nm, entry.name.as_str());
    push_arg(&mut args, nm.as_str());
    push_arg(&mut args, "--cap-drop");
    push_arg(&mut args, "ALL");
    push_arg(&mut args, "--security-opt");
    push_arg(&mut args, "no-new-privileges");
    push_arg(&mut args, "--tmpfs");
    push_arg(&mut args, "/tmp");
    push_arg(&mut args, "--tmpfs");
    push_arg(&mut args, "/run");
    push_arg(&mut args, "--tmpfs");
    push_arg(&mut args, "/var/tmp");
    push_arg(&mut args, "--network");
    push_arg(&mut args, SHARED_NETWORK_NAME);
    push_arg(&mut args, "-v");
    let mut vol = owned(entry.mount_dir.as_path());
    push_str(&mut vol, ":");
    push_str(&mut vol, WORKSPACE_PATH);
    push_arg(&mut args, vol.as_str());
    push_arg(&mut args, "--mount");
    let mut mnt = owned("type=tmpfs,destination=");
    push_str(&mut mnt, PROJECT_CONFIG_SHADOW);
    push_str(&mut mnt, ",readonly");
    push_arg(&mut args, mnt.as_str());
    let ghost head = args.deep_view();
    assert(head == run_head(entry.name@, entry.mount_dir@));
    let vars = config.env.entries();
    let mut k: usize = 0;
    assert(vars@.take(0) =~= Seq::<EnvVar>::empty());
    assert(args.deep_view() =~= head + env_args(vars@.take(0)));
    while k < vars.len()
        invariant
            k <= vars@.len(),
            args.deep_view() == head + env_args(vars@.take(k as int)),
        decreases vars.len() - k,
    {
        let ghost prev = env_args(vars@.take(k as int));
        assert(vars@.take(k + 1).drop_last() =~= vars@.take(k as int));
        assert(vars@.take(k + 1).last() == vars@[k as int]);
        push_env(&mut args, vars[k].key.as_str(), vars[k].value.as_str());
        assert(args.deep_view() =~= head + env_args(vars@.take(k + 1)));
        k = k + 1;
    }
    assert(vars@.take(vars@.len() as int) =~= vars@);
    let ghost with_env = args.deep_view();
    let url = service(config.proxy).proxy_url();
    push_env(&mut args, "HTTP_PROXY", url.as_str());
    push_env(&mut args, "http_proxy", url.as_str());
    push_env(&mut args, "HTTPS_PROXY", url.as_str());
    push_env(&mut args, "https_proxy", url.as_str());
    push_env(&mut args, "NO_PROXY", NO_PROXY_VALUE);
    push_env(&mut args, "no_proxy", NO_PROXY_VALUE);
    assert(args.deep_view() =~= with_env + proxy_env_args(url@));
    let ghost with_proxy = args.deep_view();
    push_arg(&mut args, "-w");
    push_arg(&mut args, WORKSPACE_PATH);
    push_arg(&mut args, entry.image.as_str());
    assert(args.deep_view() =~= with_proxy + seq!["-w"@, WORKSPACE_PATH@, entry.image@]);
    args
}

/// `docker start CONTAINER`.
pub fn start_args(name: &CastorName) -> (r: Vec<String>)
    ensures
        r.deep_view() == seq!["start"@, container_name_of(name@)],
{
    let mut args: Vec<String> = Vec::new();
    push_arg(&mut args, "start");
    let c = container_name(name);
    push_arg(&mut args, c.as_str());
    args
}

/// `docker exec -it CONTAINER <shell>`, or `docker exec -it CONTAINER
/// /bin/sh -c <auto>` without a shell.
pub fn exec_args(name: &CastorName, shell: Option<&str>) -> (r: Vec<String>)
    ensures
        r.deep_view() == match shell {
            Some(path) => seq!["exec"@, "-it"@, container_name_of(name@), path@],
            None => seq![
                "exec"@,
                "-it"@,
                container_name_of(name@),
                "/bin/sh"@,
                "-c"@,
                EXEC_SHELL_AUTO_SCRIPT@,
            ],
        },
{
    let mut args: Vec<String> = Vec::new();
    push_arg(&mut args, "exec");
    push_arg(&mut args, "-it");
    let c = container_name(name);
    push_arg(&mut args, c.as_str());
    match shell {
        Some(path) => push_arg(&mut args, path),
        None => {
            push_arg(&mut args, "/bin/sh");
            push_arg(&mut args, "-c");
            push_arg(&mut args, EXEC_SHELL_AUTO_SCRIPT);
        },
    }
    args
}

/// `docker rm -f CONTAINER`: force-removes (and stops) in one call.
pub fn rm_force_args(name: &CastorName) -> (r: Vec<String>)
    ensures
        r.deep_view() == seq!["rm"@, "-f"@, container_name_of(name@)],
{
    let mut args: Vec<String> = Vec::new();
    push_arg(&mut args, "rm");
    push_arg(&mut args, "-f");
    let c = container_name(name);
    push_arg(&mut args, c.as_str());
    args
}

pub const INSPECT_STATUS_FORMAT: &'static str = "{{.State.Status}}|{{.State.ExitCode}}";

/// `docker inspect --format '{{.State.Status}}|{{.State.ExitCode}}' CONTAINER`.
pub fn inspect_args(name: &CastorName) -> (r: Vec<String>)
    ensures
        r.deep_view() == seq![
            "inspect"@,
            "--format"@,
            INSPECT_STATUS_FORMAT@,
            container_name_of(name@),
        ],
{
    let mut args: Vec<String> = Vec::new();
    push_arg(&mut args, "inspect");
    push_arg(&mut args, "--format");
    push_arg(&mut args, INSPECT_STATUS_FORMAT);
    let c = container_name(name);
    push_arg(&mut args, c.as_str());
    args
}

/// `{{.Label "castors.name"}}|{{.State}}`.
pub open spec fn list_format() -> Seq<char> {
    "{{.Label \""@ + NAME_KEY@ + "\"}}|{{.State}}"@
}

/// `docker ps -a --filter label=castors.role=castor --format
/// '{{.Label "castors.name"}}|{{.State}}'`.
pub fn list_args() -> (r: Vec<String>)
    ensures
        r.deep_view() == seq![
            "ps"@,
            "-a"@,
            "--filter"@,
            "label="@ + ROLE_KEY@ + "="@ + ROLE_CASTOR@,
            "--format"@,
            list_format(),
        ],
{
    let mut args: Vec<String> = Vec::new();
    push_arg(&mut args, "ps");
    push_arg(&mut args, "-a");
    push_arg(&mut args, "--filter");
    let mut f = owned("label=");
    push_str(&mut f, ROLE_KEY);
    push_str(&mut f, "=");
    push_str(&mut f, ROLE_CASTOR);
    push_arg(&mut args, f.as_str());
    push_arg(&mut args, "--format");
    let mut fmt = owned("{{.Label \"");
    push_str(&mut fmt, NAME_KEY);
    push_str(&mut fmt, "\"}}|{{.State}}");
    push_arg(&mut args, fmt.as_str());
    args
}

proof fn lemma_env_args_len(vars: Seq<EnvVar>)
    ensures
        env_args(vars).len() == 2 * vars.len(),
    decreases vars.len(),
{
    if vars.len() > 0 {
        lemma_env_args_len(vars.drop_last());
    }
}

/// The layout of `docker run`: a fixed framing, two arguments per
/// configured variable, the six backend proxy variables after them, and
/// `-w /workspace IMAGE` last, so the image stays the last positional.
pub proof fn law_run_args_layout(entry: CastorEntry, config: ResolvedConfig)
    ensures
        ({
            let a = run_args_of(entry, config);
            let n = a.len();
            &&& n == 24 + 2 * config.env@.len() + 12 + 3
            &&& a[n - 1] == entry.image@
            &&& a[n - 2] == WORKSPACE_PATH@
            &&& a[n - 3] == "-w"@
            &&& a.subrange(24 + 2 * config.env@.len() as int, n - 3) == proxy_env_args(
                service_url(config.proxy),
            )
        }),
{
    lemma_env_args_len(config.env@);
    let a = run_args_of(entry, config);
    let h = run_head(entry.name@, entry.mount_dir@);
    let e = env_args(config.env@);
    let p = proxy_env_args(service_url(config.proxy));
    assert(h.len() == 24);
    assert(p.len() == 12);
    assert(a.subrange(24 + e.len() as int, a.len() - 3) =~= p);
}

/// The URL of the proxy a castor in `mode` goes through, from the proxy's
/// own container name and port.
pub open spec fn mode_proxy_url(mode: ProxyMode) -> Seq<char> {
    match mode {
        ProxyMode::Squid => "http://"@ + crate::proxy::squid::CONTAINER_NAME@ + ":"@ + decimal(
            crate::proxy::squid::PORT as nat,
        ),
        ProxyMode::Mitm => "http://"@ + crate::proxy::mitm::CONTAINER_NAME@ + ":"@ + decimal(
            crate::proxy::mitm::PORT as nat,
        ),
    }
}

/// Every proxy variable of a castor points at the proxy of its configured
/// mode: right after the configured variables, `docker run` sets
/// `HTTP_PROXY`, `http_proxy`, `HTTPS_PROXY` and `https_proxy`, each to
/// that proxy's URL, so no tool reading either spelling bypasses it.
pub proof fn law_run_args_proxy_env(entry: CastorEntry, config: ResolvedConfig)
    ensures
        ({
            let a = run_args_of(entry, config);
            let k: int = 24 + 2 * (config.env@.len() as int);
            let url = mode_proxy_url(config.proxy);
            &&& a.len() > k + 7
            &&& a[k] == "-e"@ && a[k + 1] == "HTTP_PROXY"@ + "="@ + url
            &&& a[k + 2] == "-e"@ && a[k + 3] == "http_proxy"@ + "="@ + url
            &&& a[k + 4] == "-e"@ && a[k + 5] == "HTTPS_PROXY"@ + "="@ + url
            &&& a[k + 6] == "-e"@ && a[k + 7] == "https_proxy"@ + "="@ + url
        }),
{
    law_run_args_layout(entry, config);
    assert(service_url(config.proxy) == mode_proxy_url(config.proxy));
    let a = run_args_of(entry, config);
    let k: int = 24 + 2 * (config.env@.len() as int);
    let p = a.subrange(k, a.len() - 3);
    assert(p[1] == a[k + 1]);
    assert(p[3] == a[k + 3]);
    assert(p[5] == a[k + 5]);
    assert(p[7] == a[k + 7]);
}

} // verus!
