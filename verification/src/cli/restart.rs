//! `castors restart`: recreate a castor's container from its current
//! configuration, keeping its name and mount directory.

use vstd::prelude::*;

use crate::base::domain::{
    check_safe_source, home_dir, lemma_verdict_home_independent, opt_view, safe_source_verdict,
    CastorName,
};
use crate::base::registry::{CastorEntry, CreatedAt, EntryView, Registry, RegistryStore};
use crate::cli::add::{secrets_warning, warn_about_secret_injection, warning_for, warns_about_secrets};
use crate::cli::{failed_request, failure, quoted, request_failure, CliError, Progress, Report, Request, Step};
use crate::config::identity::chosen_image;
use crate::config::merge::{is_merge, merge};
use crate::config::ResolvedConfig;
use crate::config::schema::{GlobalConfig, ProjectConfig};
use crate::engine::Engine;
use crate::text::owned;

verus! {

/// The arguments of `castors restart`.
#[derive(Debug)]
pub struct RestartArgs {
    /// Name of the castor to recreate.
    pub castor_name: CastorName,
}

/// The image a restarted castor runs: the project's, else the global
/// default, else the one it ran before.
pub open spec fn restart_image(project: ProjectConfig, global: GlobalConfig, before: Seq<char>) -> Seq<
    char,
> {
    match project.castor.image {
        Some(i) => i@,
        None => match global.defaults.image {
            Some(i) => i@,
            None => before,
        },
    }
}

/// The image of a restarted castor follows the precedence of the image
/// choice for a new one, with no image on the command line: the project's
/// `castor.image` wins over the global `defaults.image`, which wins over the
/// image the castor ran before; only when neither layer names an image is
/// the previous one kept.
pub proof fn law_restart_image_precedence(
    project: ProjectConfig,
    global: GlobalConfig,
    before: Seq<char>,
)
    ensures
        project.castor.image matches Some(i) ==> restart_image(project, global, before) == i@,
        global.defaults.image matches Some(g) ==> (project.castor.image is None ==> restart_image(
            project,
            global,
            before,
        ) == g@),
        project.castor.image is None && global.defaults.image is None ==> restart_image(
            project,
            global,
            before,
        ) == before,
        chosen_image(None, project.castor.image, global.defaults.image) matches Some(c)
            ==> restart_image(project, global, before) == c,
{
}

/// `after` is `before` with the castor `name` recreated at `created_at`.
pub open spec fn recreated(
    name: Seq<char>,
    project: ProjectConfig,
    global: GlobalConfig,
    created_at: CreatedAt,
    before: Map<Seq<char>, EntryView>,
    after: Map<Seq<char>, EntryView>,
) -> bool {
    &&& before.contains_key(name)
    &&& after == before.insert(
        name,
        EntryView {
            name,
            image: restart_image(project, global, before[name].image),
            mount_dir: before[name].mount_dir,
            created_at,
        },
    )
}

/// The state of `castors restart` once the castor is found and its mount
/// directory checked: the replacement entry, its configuration, the warning
/// to show, and what to ask next.
#[derive(Debug)]
pub struct RestartFlow {
    pub next: Request,
    pub entry: CastorEntry,
    pub resolved: ResolvedConfig,
    pub warning: Option<String>,
}

/// `f` may take its next step against a registry whose view is `m`: the
/// castor stays registered throughout.
pub open spec fn restart_ready(f: RestartFlow, m: Map<Seq<char>, EntryView>) -> bool {
    &&& (f.next == Request::EnsureInfra || f.next == Request::StopAndRemove || f.next
        == Request::CreateAndStart || f.next == Request::SaveRegistry || f.next
        == Request::RefreshProxyPolicy)
    &&& m.contains_key(f.entry@.name)
}

/// The replacement of the registered castor `before` at `created_at`.
pub open spec fn replacement(
    before: EntryView,
    project: ProjectConfig,
    global: GlobalConfig,
    created_at: CreatedAt,
) -> EntryView {
    EntryView {
        name: before.name,
        image: restart_image(project, global, before.image),
        mount_dir: before.mount_dir,
        created_at,
    }
}

/// Starts `castors restart` with `home` as the user's home directory: the
/// castor must be registered, and its mount directory must still be a safe
/// mount source (see [`safe_source_verdict`]). The first request brings up
/// the shared infrastructure.
pub fn restart_begin(
    args: RestartArgs,
    global: &GlobalConfig,
    project: &ProjectConfig,
    registry: &Registry,
    home: &Option<String>,
    created_at: CreatedAt,
) -> (r: Result<RestartFlow, CliError>)
    ensures
        !registry@.contains_key(args.castor_name@) ==> (r matches Err(e) && e.step == Step::Lookup
            && e.message@ == "castor '"@ + args.castor_name@ + "' not found"@ && e.cause is None),
        registry@.contains_key(args.castor_name@) ==> match safe_source_verdict(
            registry@[args.castor_name@].mount_dir,
            opt_view(home),
        ) {
            Err(m) => r matches Err(e) && e.step == Step::Validate && e.message@
                == "refusing unsafe mount directory"@ && (e.cause matches Some(c) && c@ == m),
            Ok(()) => r matches Ok(f) && f.next == Request::EnsureInfra && f.entry@.name
                == args.castor_name@ && f.entry@ == replacement(
                registry@[args.castor_name@],
                *project,
                *global,
                created_at,
            ) && is_merge(*global, *project, f.resolved) && warning_for(f.warning, f.resolved)
                && restart_ready(f, registry@),
        },
{
    let name = args.castor_name;
    let existing = match registry.get(&name) {
        Some(e) => e.clone(),
        None => {
            return Err(
                CliError {
                    step: Step::Lookup,
                    message: quoted("castor '", name.as_str(), "' not found"),
                    cause: None,
                    notes: Vec::new(),
                },
            );
        },
    };
    match check_safe_source(existing.mount_dir.as_path(), home) {
        Ok(()) => {},
        Err(msg) => {
            return Err(failure(Step::Validate, owned("refusing unsafe mount directory"), msg));
        },
    }
    let resolved = merge(global, project);
    let image = match &project.castor.image {
        Some(i) => i.clone(),
        None => match &global.defaults.image {
            Some(i) => i.clone(),
            None => existing.image.clone(),
        },
    };
    let entry = CastorEntry {
        name: existing.name.clone(),
        image,
        mount_dir: existing.mount_dir,
        created_at,
    };
    let warning = warn_about_secret_injection(&resolved);
    Ok(RestartFlow { next: Request::EnsureInfra, entry, resolved, warning })
}

/// Goes on with `castors restart` once `flow.next` was answered with
/// `answer` (the error's text when it failed). Any failure ends the command
/// with the failure of that request. The infrastructure is brought up, the
/// old container removed and the new one started, in that order; only then
/// is the registered entry replaced, the registry saved and the proxy
/// policy refreshed.
pub fn restart_step(flow: RestartFlow, answer: Result<(), String>, registry: &mut Registry) -> (r:
    Progress<RestartFlow>)
    requires
        restart_ready(flow, old(registry)@),
    ensures
        final(registry).location() == old(registry).location(),
        match answer {
            Err(c) => final(registry)@ == old(registry)@ && (r matches Progress::Finish(res)
                && failed_request(res, flow.next, flow.entry@.name, c)),
            Ok(()) => match flow.next {
                Request::EnsureInfra => final(registry)@ == old(registry)@ && (r matches Progress::Continue(f)
                    && f.next == Request::StopAndRemove && f.entry == flow.entry && f.resolved
                    == flow.resolved && f.warning == flow.warning),
                Request::StopAndRemove => final(registry)@ == old(registry)@ && (r matches Progress::Continue(f)
                    && f.next == Request::CreateAndStart && f.entry == flow.entry && f.resolved
                    == flow.resolved && f.warning == flow.warning),
                Request::CreateAndStart => final(registry)@ == old(registry)@.insert(
                    flow.entry@.name,
                    flow.entry@,
                ) && (r matches Progress::Continue(f) && f.next == Request::SaveRegistry && f.entry
                    == flow.entry && f.resolved == flow.resolved && f.warning == flow.warning),
                Request::SaveRegistry => final(registry)@ == old(registry)@ && (r matches Progress::Continue(f)
                    && f.next == Request::RefreshProxyPolicy && f.entry == flow.entry && f.resolved
                    == flow.resolved && f.warning == flow.warning),
                _ => final(registry)@ == old(registry)@ && (r matches Progress::Finish(Ok(rep))
                    && rep.out@.len() == 1 && rep.out@[0]@ == "restarted castor '"@ + flow.entry@.name
                    + "'"@ && match flow.warning {
                    Some(w) => rep.warnings@.len() == 1 && rep.warnings@[0] == w,
                    None => rep.warnings@.len() == 0,
                }),
            },
        },
{
    match answer {
        Err(c) => Progress::Finish(Err(request_failure(flow.next, flow.entry.name.as_str(), c))),
        Ok(()) => match flow.next {
            Request::EnsureInfra => Progress::Continue(
                RestartFlow {
                    next: Request::StopAndRemove,
                    entry: flow.entry,
                    resolved: flow.resolved,
                    warning: flow.warning,
                },
            ),
            Request::StopAndRemove => Progress::Continue(
                RestartFlow {
                    next: Request::CreateAndStart,
                    entry: flow.entry,
                    resolved: flow.resolved,
                    warning: flow.warning,
                },
            ),
            Request::CreateAndStart => {
                match registry.remove(&flow.entry.name) {
                    Ok(_) => {},
                    Err(_) => {
                        proof {
                            assert(false);
                        }
                    },
                }
                let copy = flow.entry.clone();
                match registry.insert(copy) {
                    Ok(()) => {},
                    Err(_) => {
                        proof {
                            assert(false);
                        }
                    },
                }
                proof {
                    assert(registry@ =~= old(registry)@.insert(flow.entry@.name, flow.entry@));
                }
                Progress::Continue(
                    RestartFlow {
                        next: Request::SaveRegistry,
                        entry: flow.entry,
                        resolved: flow.resolved,
                        warning: flow.warning,
                    },
                )
            },
            Request::SaveRegistry => Progress::Continue(
                RestartFlow {
                    next: Request::RefreshProxyPolicy,
                    entry: flow.entry,
                    resolved: flow.resolved,
                    warning: flow.warning,
                },
            ),
            _ => {
                let mut warnings: Vec<String> = Vec::new();
                match flow.warning {
                    Some(w) => warnings.push(w),
                    None => {},
                }
                let mut out: Vec<String> = Vec::new();
                out.push(quoted("restarted castor '", flow.entry.name.as_str(), "'"));
                Progress::Finish(Ok(Report { out, warnings }))
            },
        },
    }
}

/// How far `castors restart` still has to go from `r`.
pub open spec fn restart_remaining(r: Request) -> nat {
    match r {
        Request::EnsureInfra => 5,
        Request::StopAndRemove => 4,
        Request::CreateAndStart => 3,
        Request::SaveRegistry => 2,
        _ => 1,
    }
}

/// Recreates a registered castor, running [`restart_begin`] with the
/// user's home directory and then [`restart_step`] against `engine` and
/// `store`: its mount directory is checked again, then the infrastructure
/// is ensured, the old container removed and a new one started. The
/// registry changes only once the new container runs.
#[verifier::loop_isolation(false)]
pub fn run<E: Engine, S: RegistryStore>(
    args: RestartArgs,
    global: &GlobalConfig,
    project: &ProjectConfig,
    engine: &E,
    registry: &mut Registry,
    store: &S,
    created_at: CreatedAt,
) -> (r: Result<Report, CliError>)
    ensures
        final(registry).location() == old(registry).location(),
        !old(registry)@.contains_key(args.castor_name@) ==> (r matches Err(e) && e.step
            == Step::Lookup && e.message@ == "castor '"@ + args.castor_name@ + "' not found"@),
        old(registry)@.contains_key(args.castor_name@) && safe_source_verdict(
            old(registry)@[args.castor_name@].mount_dir,
            None,
        ) is Err ==> (r matches Err(e) && e.step == Step::Validate),
        match r {
            Ok(rep) => recreated(
                args.castor_name@,
                *project,
                *global,
                created_at,
                old(registry)@,
                final(registry)@,
            ) && rep.out@.len() == 1 && rep.out@[0]@ == "restarted castor '"@ + args.castor_name@
                + "'"@ && warns_about_secrets(rep, *global, *project),
            Err(e) => match e.step {
                Step::Lookup => !old(registry)@.contains_key(args.castor_name@) && final(registry)@
                    == old(registry)@,
                Step::Validate => final(registry)@ == old(registry)@ && e.message@
                    == "refusing unsafe mount directory"@ && old(registry)@.contains_key(
                    args.castor_name@,
                ) && exists|home: Option<Seq<char>>|
                    (home matches Some(h) ==> h.len() > 0) && (#[trigger] safe_source_verdict(
                        old(registry)@[args.castor_name@].mount_dir,
                        home,
                    )) is Err,
                Step::Infra => final(registry)@ == old(registry)@ && e.message@
                    == "failed to bring up shared infrastructure"@,
                Step::Stop => final(registry)@ == old(registry)@ && e.message@
                    == "failed to stop container for castor '"@ + args.castor_name@ + "'"@,
                Step::Start => final(registry)@ == old(registry)@ && e.message@
                    == "failed to start container for castor '"@ + args.castor_name@ + "'"@,
                Step::Save | Step::Refresh => recreated(
                    args.castor_name@,
                    *project,
                    *global,
                    created_at,
                    old(registry)@,
                    final(registry)@,
                ) && e.message@ == if e.step == Step::Save {
                    "failed to persist registry"@
                } else {
                    "failed to refresh proxy policy"@
                },
                _ => false,
            },
        },
{
    let ghost start = registry@;
    let ghost name = args.castor_name@;
    let home = home_dir();
    proof {
        if start.contains_key(name) && safe_source_verdict(start[name].mount_dir, None) is Err {
            lemma_verdict_home_independent(start[name].mount_dir, opt_view(&home));
        }
    }
    let mut flow = match restart_begin(args, global, project, registry, &home, created_at) {
        Ok(f) => f,
        Err(e) => {
            proof {
                let hv = opt_view(&home);
                if e.step == Step::Validate {
                    assert(safe_source_verdict(start[name].mount_dir, hv) is Err);
                }
            }
            return Err(e);
        },
    };
    let ghost ev = flow.entry@;
    let ghost resolved = flow.resolved;
    let ghost warning = flow.warning;
    loop
        invariant
            restart_ready(flow, start),
            start.contains_key(name),
            ev == replacement(start[name], *project, *global, created_at),
            flow.entry@ == ev,
            ev.name == name,
            flow.resolved == resolved,
            flow.warning == warning,
            is_merge(*global, *project, resolved),
            warning_for(warning, resolved),
            registry.location() == old(registry).location(),
            start == old(registry)@,
            !(flow.next == Request::SaveRegistry || flow.next == Request::RefreshProxyPolicy)
                ==> registry@ == start,
            (flow.next == Request::SaveRegistry || flow.next == Request::RefreshProxyPolicy)
                ==> registry@ == start.insert(ev.name, ev),
        decreases restart_remaining(flow.next),
    {
        let answer = match flow.next {
            Request::EnsureInfra => match engine.ensure_infra(&flow.resolved) {
                Ok(()) => Ok(()),
                Err(e) => Err(e.to_string()),
            },
            Request::StopAndRemove => match engine.stop_and_remove(&flow.entry.name) {
                Ok(()) => Ok(()),
                Err(e) => Err(e.to_string()),
            },
            Request::CreateAndStart => match engine.create_and_start(&flow.entry, &flow.resolved) {
                Ok(()) => Ok(()),
                Err(e) => Err(e.to_string()),
            },
            Request::SaveRegistry => match store.save(registry) {
                Ok(()) => Ok(()),
                Err(e) => Err(e.to_string()),
            },
            _ => match engine.refresh_proxy_policy(registry) {
                Ok(()) => Ok(()),
                Err(e) => Err(e.to_string()),
            },
        };
        match restart_step(flow, answer, registry) {
            Progress::Continue(f) => {
                flow = f;
            },
            Progress::Finish(res) => {
                proof {
                    let w = secrets_warning(resolved);
                }
                return res;
            },
        }
    }
}

} // verus!
