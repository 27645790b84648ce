//! `castors add`: resolve the new castor's identity, bring up the shared
//! infrastructure, start its container, then register it and refresh the
//! proxy policy.

use vstd::prelude::*;

use crate::base::domain::{CastorName, ImageTag, MountDir};
use crate::base::registry::{CastorEntry, CreatedAt, EntryView, Registry, RegistryStore};
use crate::cli::{failed_request, quoted, request_failure, CliError, Progress, Report, Request, Step};
use crate::config::identity::{
    auto_name_base_spec, chosen_image, chosen_name, resolve_identity, suffixed, NO_IMAGE_MSG,
};
use crate::config::merge::{is_merge, merge, merged_proxy, secrets_merged};
use crate::config::schema::{GlobalConfig, ProjectConfig, ProxyMode};
use crate::config::ResolvedConfig;
use crate::engine::Engine;
use crate::text::{decimal, decimal_string, owned, push_str};

verus! {

/// The arguments of `castors add`.
#[derive(Debug)]
pub struct AddArgs {
    /// Directory to mount into the castor (the current directory by default).
    pub dir: MountDir,
    /// Container image; overrides `castor.image` and `defaults.image`.
    pub image: Option<ImageTag>,
    /// Castor name; overrides `castor.name` and disables auto-naming.
    pub name: Option<CastorName>,
}

pub const SQUID_SECRETS_WARNING: &'static str = " secret injection rule(s): squid-mode can only inject secrets into headers for HTTP requests. HTTPS requires mitm-mode with trusted CA in the image. See docs/networking.md.";

pub const MITM_SECRETS_WARNING: &'static str = " secret injection rule(s): mitm-mode can inject secrets into headers for both HTTP and HTTPS requests. However, to make HTTPS work at all, the castor image must trust the mitmproxy root CA. See docs/networking.md.";

/// The warning about secret injection for a configuration with secrets.
pub open spec fn secrets_warning(config: ResolvedConfig) -> Option<Seq<char>> {
    if config.secrets@.len() == 0 {
        None
    } else {
        match config.proxy {
            ProxyMode::Squid => Some(
                "warning: "@ + decimal(config.secrets@.len()) + SQUID_SECRETS_WARNING@,
            ),
            ProxyMode::Mitm => Some(
                "warning: "@ + decimal(config.secrets@.len()) + MITM_SECRETS_WARNING@,
            ),
        }
    }
}

/// Explains what the proxy mode can do with configured secrets.
pub fn warn_about_secret_injection(resolved: &ResolvedConfig) -> (r: Option<String>)
    ensures
        match r {
            Some(w) => secrets_warning(*resolved) == Some(w@),
            None => secrets_warning(*resolved) is None,
        },
{
    if resolved.secrets.len() == 0 {
        return None;
    }
    let mut w = owned("warning: ");
    let n = decimal_string(resolved.secrets.len() as u64);
    push_str(&mut w, n.as_str());
    match resolved.proxy {
        ProxyMode::Squid => push_str(&mut w, SQUID_SECRETS_WARNING),
        ProxyMode::Mitm => push_str(&mut w, MITM_SECRETS_WARNING),
    }
    Some(w)
}

/// The name and image `castors add` picks: the first image among the CLI,
/// the project and the global defaults; the explicit name (CLI, then
/// project) when it is free, else the smallest free `<base>-<n>`.
pub open spec fn added_identity(
    args: AddArgs,
    project: ProjectConfig,
    global: GlobalConfig,
    mount_dir: Seq<char>,
    taken: Set<Seq<char>>,
    name: Seq<char>,
    image: Seq<char>,
) -> bool {
    &&& chosen_image(args.image, project.castor.image, global.defaults.image) == Some(image)
    &&& match chosen_name(args.name, project.castor.name) {
        Some(e) => name == e && !taken.contains(e),
        None => {
            let base = auto_name_base_spec(mount_dir);
            exists|k: nat|
                {
                    &&& k >= 1
                    &&& !taken.contains(suffixed(base, k))
                    &&& forall|m: nat| 1 <= m < k ==> taken.contains(#[trigger] suffixed(base, m))
                    &&& name == suffixed(base, k)
                }
        },
    }
}

/// `after` is `before` with the new castor registered.
pub open spec fn registered(
    args: AddArgs,
    project: ProjectConfig,
    global: GlobalConfig,
    mount_dir: Seq<char>,
    created_at: CreatedAt,
    before: Map<Seq<char>, EntryView>,
    after: Map<Seq<char>, EntryView>,
) -> bool {
    exists|name: Seq<char>, image: Seq<char>|
        added_identity(args, project, global, mount_dir, before.dom(), name, image) && after
            == before.insert(
            name,
            EntryView { name, image, mount_dir, created_at },
        )
}

/// The report of a successful `castors add`: the line naming the castor
/// that `before` lacked and `after` has, and the secret-injection warning
/// for the merged configuration, if any.
pub open spec fn add_report(
    rep: Report,
    global: GlobalConfig,
    project: ProjectConfig,
    before: Map<Seq<char>, EntryView>,
    after: Map<Seq<char>, EntryView>,
) -> bool {
    &&& rep.out@.len() == 1
    &&& exists|n: Seq<char>|
        !before.contains_key(n) && after.contains_key(n) && #[trigger] rep.out@[0]@
            == "added castor '"@ + n + "'"@
    &&& warns_about_secrets(rep, global, project)
}

/// The warnings of `rep` are the secret-injection warning, if any, for the
/// configuration merged from `global` and `project`.
pub open spec fn warns_about_secrets(rep: Report, global: GlobalConfig, project: ProjectConfig) -> bool {
    exists|c: ResolvedConfig|
        {
            &&& c.proxy == merged_proxy(global.network.proxy, project.network.proxy)
            &&& secrets_merged(global.secrets@ + project.secrets@, c.secrets@)
            &&& match #[trigger] secrets_warning(c) {
                None => rep.warnings@.len() == 0,
                Some(w) => rep.warnings@.len() == 1 && rep.warnings@[0]@ == w,
            }
        }
}

/// Identity resolution fails: no image anywhere, or an explicit name that
/// is taken.
pub open spec fn identity_fails(
    args: AddArgs,
    project: ProjectConfig,
    global: GlobalConfig,
    taken: Set<Seq<char>>,
) -> bool {
    ||| chosen_image(args.image, project.castor.image, global.defaults.image) is None
    ||| (chosen_name(args.name, project.castor.name) matches Some(e) && taken.contains(e))
}

/// The text of the identity error `castors add` reports: no image
/// anywhere, or an explicit name that is taken.
pub open spec fn identity_error_text(args: AddArgs, project: ProjectConfig, global: GlobalConfig) -> Seq<
    char,
> {
    if chosen_image(args.image, project.castor.image, global.defaults.image) is None {
        NO_IMAGE_MSG@
    } else {
        match chosen_name(args.name, project.castor.name) {
            Some(n) => "explicit name '"@ + n
                + "' is already taken; pick another with `-n NAME` or `castors rm "@ + n + "` first"@,
            None => Seq::empty(),
        }
    }
}

/// The state of `castors add` once the castor's identity is chosen: the
/// entry to create, its configuration, the warning to show, and what to
/// ask next.
#[derive(Debug)]
pub struct AddFlow {
    pub next: Request,
    pub entry: CastorEntry,
    pub resolved: ResolvedConfig,
    pub warning: Option<String>,
}

/// `warning` is the secret-injection warning for `resolved`, if any.
pub open spec fn warning_for(warning: Option<String>, resolved: ResolvedConfig) -> bool {
    match warning {
        Some(w) => secrets_warning(resolved) == Some(w@),
        None => secrets_warning(resolved) is None,
    }
}

/// `f` may take its next step against a registry whose view is `m`: the
/// castor is not registered before its container is started.
pub open spec fn add_ready(f: AddFlow, m: Map<Seq<char>, EntryView>) -> bool {
    &&& (f.next == Request::EnsureInfra || f.next == Request::CreateAndStart
        || f.next == Request::SaveRegistry || f.next == Request::RefreshProxyPolicy)
    &&& (f.next == Request::EnsureInfra || f.next == Request::CreateAndStart) ==> !m.contains_key(
        f.entry@.name,
    )
}

/// Starts `castors add`: chooses the castor's name and image (see
/// [`added_identity`]) and merges its configuration. Fails, with the
/// identity error's text, exactly when that choice fails; otherwise the
/// first request brings up the shared infrastructure.
pub fn add_begin(
    args: AddArgs,
    mount_dir: MountDir,
    global: &GlobalConfig,
    project: &ProjectConfig,
    registry: &Registry,
    created_at: CreatedAt,
) -> (r: Result<AddFlow, CliError>)
    requires
        registry.entries().len() < usize::MAX,
    ensures
        r is Err <==> identity_fails(args, *project, *global, registry@.dom()),
        match r {
            Err(e) => e.step == Step::Identity && e.message@ == identity_error_text(
                args,
                *project,
                *global,
            ) && e.cause is None,
            Ok(f) => {
                &&& f.next == Request::EnsureInfra
                &&& added_identity(args, *project, *global, mount_dir@, registry@.dom(), f.entry@.name, f.entry@.image)
                &&& f.entry@.mount_dir == mount_dir@
                &&& f.entry@.created_at == created_at
                &&& is_merge(*global, *project, f.resolved)
                &&& warning_for(f.warning, f.resolved)
                &&& add_ready(f, registry@)
            },
        },
{
    let ghost cli_name = args.name;
    let ghost md = mount_dir@;
    let taken = registry.names();
    let ghost dom = registry@.dom();
    proof {
        assert forall|x: Seq<char>| crate::config::identity::name_views(taken@).contains(x) <==> dom.contains(x) by {}
    }
    let identity = resolve_identity(
        args.image,
        args.name,
        project,
        global,
        mount_dir.as_path(),
        taken.as_slice(),
    );
    let (name, image) = match identity {
        Ok(p) => p,
        Err(e) => {
            return Err(CliError { step: Step::Identity, message: e.to_string(), cause: None, notes: Vec::new() });
        },
    };
    let resolved = merge(global, project);
    let entry = CastorEntry { name, image, mount_dir, created_at };
    let ghost ev = entry@;
    proof {
        match chosen_name(cli_name, project.castor.name) {
            Some(e) => {},
            None => {
                let base = auto_name_base_spec(md);
                let k = choose|k: nat|
                    crate::config::identity::first_free_suffix(base, taken@, k) && ev.name
                        == suffixed(base, k);
                assert forall|m: nat| 1 <= m < k implies dom.contains(
                    #[trigger] suffixed(base, m),
                ) by {
                    assert(crate::config::identity::name_views(taken@).contains(suffixed(base, m)));
                }
                assert(!dom.contains(suffixed(base, k)));
            },
        }
        assert(added_identity(args, *project, *global, md, dom, ev.name, ev.image));
    }
    let warning = warn_about_secret_injection(&resolved);
    Ok(AddFlow { next: Request::EnsureInfra, entry, resolved, warning })
}

/// The warnings already due when `castors add` fails at `next`: the
/// secret-injection warning once the container has started, none before.
pub open spec fn notes_due(next: Request, warning: Option<String>, notes: Seq<String>) -> bool {
    if next == Request::SaveRegistry || next == Request::RefreshProxyPolicy {
        match warning {
            Some(w) => notes.len() == 1 && notes[0] == w,
            None => notes.len() == 0,
        }
    } else {
        notes.len() == 0
    }
}

/// Goes on with `castors add` once `flow.next` was answered with `answer`
/// (the error's text when it failed). Any failure ends the command with the
/// failure of that request, carrying the secret-injection warning when the
/// container had already started. The infrastructure is brought up before
/// the container is created; the castor is registered only once its
/// container has started, then the registry is saved and the proxy policy
/// refreshed.
pub fn add_step(flow: AddFlow, answer: Result<(), String>, registry: &mut Registry) -> (r: Progress<
    AddFlow,
>)
    requires
        add_ready(flow, old(registry)@),
    ensures
        final(registry).location() == old(registry).location(),
        match answer {
            Err(c) => final(registry)@ == old(registry)@ && (r matches Progress::Finish(res)
                && failed_request(res, flow.next, flow.entry@.name, c) && (res matches Err(e)
                && notes_due(flow.next, flow.warning, e.notes@))),
            Ok(()) => match flow.next {
                Request::EnsureInfra => final(registry)@ == old(registry)@ && (r matches Progress::Continue(f)
                    && f.next == Request::CreateAndStart && f.entry == flow.entry && f.resolved
                    == flow.resolved && f.warning == flow.warning),
                Request::CreateAndStart => final(registry)@ == old(registry)@.insert(
                    flow.entry@.name,
                    flow.entry@,
                ) && (r matches Progress::Continue(f) && f.next == Request::SaveRegistry && f.entry
                    == flow.entry && f.resolved == flow.resolved && f.warning == flow.warning),
                Request::SaveRegistry => final(registry)@ == old(registry)@ && (r matches Progress::Continue(f)
                    && f.next == Request::RefreshProxyPolicy && f.entry == flow.entry && f.resolved
                    == flow.resolved && f.warning == flow.warning),
                _ => final(registry)@ == old(registry)@ && (r matches Progress::Finish(Ok(rep))
                    && rep.out@.len() == 1 && rep.out@[0]@ == "added castor '"@ + flow.entry@.name
                    + "'"@ && match flow.warning {
                    Some(w) => rep.warnings@.len() == 1 && rep.warnings@[0] == w,
                    None => rep.warnings@.len() == 0,
                }),
            },
        },
{
    match answer {
        Err(c) => {
            let mut e = request_failure(flow.next, flow.entry.name.as_str(), c);
            if flow.next == Request::SaveRegistry || flow.next == Request::RefreshProxyPolicy {
                match flow.warning {
                    Some(w) => e.notes.push(w),
                    None => {},
                }
            }
            Progress::Finish(Err(e))
        },
        Ok(()) => match flow.next {
            Request::EnsureInfra => Progress::Continue(
                AddFlow {
                    next: Request::CreateAndStart,
                    entry: flow.entry,
                    resolved: flow.resolved,
                    warning: flow.warning,
                },
            ),
            Request::CreateAndStart => {
                let copy = flow.entry.clone();
                match registry.insert(copy) {
                    Ok(()) => {},
                    Err(e) => {
                        proof {
                            assert(false);
                        }
                    },
                }
                Progress::Continue(
                    AddFlow {
                        next: Request::SaveRegistry,
                        entry: flow.entry,
                        resolved: flow.resolved,
                        warning: flow.warning,
                    },
                )
            },
            Request::SaveRegistry => Progress::Continue(
                AddFlow {
                    next: Request::RefreshProxyPolicy,
                    entry: flow.entry,
                    resolved: flow.resolved,
                    warning: flow.warning,
                },
            ),
            _ => {
                let mut warnings: Vec<String> = Vec::new();
                match flow.warning {
                    Some(w) => warnings.push(w),
                    None => {},
                }
                let mut out: Vec<String> = Vec::new();
                out.push(quoted("added castor '", flow.entry.name.as_str(), "'"));
                Progress::Finish(Ok(Report { out, warnings }))
            },
        },
    }
}

/// How far `castors add` still has to go from `r`.
pub open spec fn add_remaining(r: Request) -> nat {
    match r {
        Request::EnsureInfra => 4,
        Request::CreateAndStart => 3,
        Request::SaveRegistry => 2,
        _ => 1,
    }
}

/// Adds a castor mounted at `mount_dir` (already absolute and checked as a
/// mount source), created at `created_at`.
///
/// The castor is registered only once its container has started: when
/// identity resolution, the infrastructure or the container fails, the
/// registry is unchanged. Once registered, the registry is saved and the
/// proxy policy refreshed. The steps are those of [`add_begin`] and
/// [`add_step`], asked of `engine` and `store` in turn.
#[verifier::loop_isolation(false)]
pub fn run<E: Engine, S: RegistryStore>(
    args: AddArgs,
    mount_dir: MountDir,
    global: &GlobalConfig,
    project: &ProjectConfig,
    engine: &E,
    registry: &mut Registry,
    store: &S,
    created_at: CreatedAt,
) -> (r: Result<Report, CliError>)
    requires
        old(registry).entries().len() < usize::MAX,
    ensures
        final(registry).location() == old(registry).location(),
        identity_fails(args, *project, *global, old(registry)@.dom()) ==> (r matches Err(e)
            && e.step == Step::Identity && final(registry)@ == old(registry)@),
        match r {
            Ok(rep) => registered(
                args,
                *project,
                *global,
                mount_dir@,
                created_at,
                old(registry)@,
                final(registry)@,
            ) && add_report(rep, *global, *project, old(registry)@, final(registry)@),
            Err(e) => match e.step {
                Step::Identity => identity_fails(args, *project, *global, old(registry)@.dom())
                    && final(registry)@ == old(registry)@ && e.message@ == identity_error_text(
                    args,
                    *project,
                    *global,
                ),
                Step::Infra => final(registry)@ == old(registry)@ && e.message@
                    == "failed to bring up shared infrastructure"@,
                Step::Start => final(registry)@ == old(registry)@ && exists|
                    name: Seq<char>,
                    image: Seq<char>,
                |
                    #[trigger] added_identity(args, *project, *global, mount_dir@, old(registry)@.dom(), name, image)
                        && e.message@ == "failed to start container for castor '"@ + name + "'"@,
                Step::Save => registered(
                    args,
                    *project,
                    *global,
                    mount_dir@,
                    created_at,
                    old(registry)@,
                    final(registry)@,
                ) && e.message@ == "failed to persist registry"@,
                Step::Refresh => registered(
                    args,
                    *project,
                    *global,
                    mount_dir@,
                    created_at,
                    old(registry)@,
                    final(registry)@,
                ) && e.message@ == "failed to refresh proxy policy"@,
                _ => false,
            },
        },
{
    let ghost start = registry@;
    let mut flow = match add_begin(args, mount_dir, global, project, registry, created_at) {
        Ok(f) => f,
        Err(e) => return Err(e),
    };
    let ghost ev = flow.entry@;
    let ghost resolved = flow.resolved;
    let ghost warning = flow.warning;
    loop
        invariant
            add_ready(flow, start),
            flow.entry@ == ev,
            flow.resolved == resolved,
            flow.warning == warning,
            registry.location() == old(registry).location(),
            start == old(registry)@,
            (flow.next == Request::EnsureInfra || flow.next == Request::CreateAndStart)
                ==> registry@ == start,
            !(flow.next == Request::EnsureInfra || flow.next == Request::CreateAndStart)
                ==> registry@ == start.insert(ev.name, ev),
        decreases add_remaining(flow.next),
    {
        let answer = match flow.next {
            Request::EnsureInfra => match engine.ensure_infra(&flow.resolved) {
                Ok(()) => Ok(()),
                Err(e) => Err(e.to_string()),
            },
            Request::CreateAndStart => match engine.create_and_start(&flow.entry, &flow.resolved) {
                Ok(()) => Ok(()),
                Err(e) => Err(e.to_string()),
            },
            Request::SaveRegistry => match store.save(registry) {
                Ok(()) => Ok(()),
                Err(e) => Err(e.to_string()),
            },
            _ => match engine.refresh_proxy_policy(registry) {
                Ok(()) => Ok(()),
                Err(e) => Err(e.to_string()),
            },
        };
        match add_step(flow, answer, registry) {
            Progress::Continue(f) => {
                flow = f;
            },
            Progress::Finish(res) => {
                proof {
                    let w = secrets_warning(resolved);
                }
                return res;
            },
        }
    }
}

} // verus!
