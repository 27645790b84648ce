//! `castors rm`: stop and remove a castor's container, unregister it,
//! refresh the proxy policy and tear idle infrastructure down.

use vstd::prelude::*;

use crate::base::domain::CastorName;
use crate::base::registry::{Registry, RegistryStore};
use crate::cli::{failed_request, failure, quoted, request_failure, CliError, Progress, Report, Request, Step};
use crate::engine::Engine;
use crate::text::owned;

verus! {

/// The arguments of `castors rm`.
#[derive(Debug)]
pub struct RmArgs {
    /// Name of the castor to remove.
    pub castor_name: CastorName,
}

/// The state of `castors rm`: the castor to remove and what to ask next.
#[derive(Debug)]
pub struct RmFlow {
    pub next: Request,
    pub name: CastorName,
}

/// The stages `castors rm` passes through, in order.
pub open spec fn rm_stage(r: Request) -> bool {
    r == Request::StopAndRemove || r == Request::SaveRegistry || r == Request::RefreshProxyPolicy
        || r == Request::TeardownInfraIfIdle
}

/// Starts `castors rm`: the first request stops the castor's container.
pub fn rm_begin(args: RmArgs) -> (r: RmFlow)
    ensures
        r.next == Request::StopAndRemove,
        r.name@ == args.castor_name@,
{
    RmFlow { next: Request::StopAndRemove, name: args.castor_name }
}

/// Goes on with `castors rm` once `flow.next` was answered with `answer`
/// (the error's text when it failed). Any failure ends the command with the
/// failure of that request. Once the container is stopped, the castor is
/// dropped from the registry (an unknown castor fails here, with the
/// registry unchanged); then the registry is saved, the proxy policy
/// refreshed and idle infrastructure torn down, in that order.
pub fn rm_step(flow: RmFlow, answer: Result<(), String>, registry: &mut Registry) -> (r: Progress<
    RmFlow,
>)
    requires
        rm_stage(flow.next),
    ensures
        final(registry).location() == old(registry).location(),
        match answer {
            Err(c) => final(registry)@ == old(registry)@ && (r matches Progress::Finish(res)
                && failed_request(res, flow.next, flow.name@, c)),
            Ok(()) => match flow.next {
                Request::StopAndRemove => if old(registry)@.contains_key(flow.name@) {
                    final(registry)@ == old(registry)@.remove(flow.name@) && (r matches Progress::Continue(f)
                        && f.next == Request::SaveRegistry && f.name@ == flow.name@)
                } else {
                    final(registry)@ == old(registry)@ && (r matches Progress::Finish(Err(e)) && e.step
                        == Step::Register && e.message@ == "failed to remove castor '"@ + flow.name@
                        + "'"@ && e.cause is Some)
                },
                Request::SaveRegistry => final(registry)@ == old(registry)@ && (r matches Progress::Continue(f)
                    && f.next == Request::RefreshProxyPolicy && f.name@ == flow.name@),
                Request::RefreshProxyPolicy => final(registry)@ == old(registry)@
                    && (r matches Progress::Continue(f) && f.next == Request::TeardownInfraIfIdle
                    && f.name@ == flow.name@),
                _ => final(registry)@ == old(registry)@ && (r matches Progress::Finish(Ok(rep))
                    && rep.out@.len() == 1 && rep.out@[0]@ == "removed castor '"@ + flow.name@ + "'"@
                    && rep.warnings@.len() == 0),
            },
        },
{
    match answer {
        Err(c) => Progress::Finish(Err(request_failure(flow.next, flow.name.as_str(), c))),
        Ok(()) => match flow.next {
            Request::StopAndRemove => match registry.remove(&flow.name) {
                Ok(_) => Progress::Continue(RmFlow { next: Request::SaveRegistry, name: flow.name }),
                Err(e) => {
                    let m = quoted("failed to remove castor '", flow.name.as_str(), "'");
                    Progress::Finish(Err(failure(Step::Register, m, e.to_string())))
                },
            },
            Request::SaveRegistry => Progress::Continue(
                RmFlow { next: Request::RefreshProxyPolicy, name: flow.name },
            ),
            Request::RefreshProxyPolicy => Progress::Continue(
                RmFlow { next: Request::TeardownInfraIfIdle, name: flow.name },
            ),
            _ => {
                let mut out: Vec<String> = Vec::new();
                out.push(quoted("removed castor '", flow.name.as_str(), "'"));
                Progress::Finish(Ok(Report { out, warnings: Vec::new() }))
            },
        },
    }
}

/// How far `castors rm` still has to go from `r`.
pub open spec fn rm_remaining(r: Request) -> nat {
    match r {
        Request::StopAndRemove => 4,
        Request::SaveRegistry => 3,
        Request::RefreshProxyPolicy => 2,
        _ => 1,
    }
}

/// Removes a castor, running [`rm_step`] against `engine` and `store`. Its
/// container is stopped first; if that fails the registry is unchanged. An
/// unknown name fails after the stop, with the registry unchanged.
#[verifier::loop_isolation(false)]
pub fn run<E: Engine, S: RegistryStore>(
    args: RmArgs,
    engine: &E,
    registry: &mut Registry,
    store: &S,
) -> (r: Result<Report, CliError>)
    ensures
        final(registry).location() == old(registry).location(),
        match r {
            Ok(rep) => old(registry)@.contains_key(args.castor_name@) && final(registry)@
                == old(registry)@.remove(args.castor_name@) && rep.out@.len() == 1
                && rep.out@[0]@ == "removed castor '"@ + args.castor_name@ + "'"@,
            Err(e) => match e.step {
                Step::Stop => final(registry)@ == old(registry)@ && e.message@
                    == "failed to stop container for castor '"@ + args.castor_name@ + "'"@,
                Step::Register => !old(registry)@.contains_key(args.castor_name@)
                    && final(registry)@ == old(registry)@ && e.message@
                    == "failed to remove castor '"@ + args.castor_name@ + "'"@,
                Step::Save | Step::Refresh | Step::Teardown => old(registry)@.contains_key(
                    args.castor_name@,
                ) && final(registry)@ == old(registry)@.remove(args.castor_name@),
                _ => false,
            },
        },
{
    let ghost name = args.castor_name@;
    let ghost start = registry@;
    let ghost place = registry.location();
    let mut flow = rm_begin(args);
    loop
        invariant
            rm_stage(flow.next),
            flow.name@ == name,
            start == old(registry)@,
            place == old(registry).location(),
            registry.location() == place,
            flow.next == Request::StopAndRemove ==> registry@ == start,
            flow.next != Request::StopAndRemove ==> start.contains_key(name)
                && registry@ == start.remove(name),
        decreases rm_remaining(flow.next),
    {
        let answer = match flow.next {
            Request::StopAndRemove => match engine.stop_and_remove(&flow.name) {
                Ok(()) => Ok(()),
                Err(e) => Err(e.to_string()),
            },
            Request::SaveRegistry => match store.save(registry) {
                Ok(()) => Ok(()),
                Err(e) => Err(e.to_string()),
            },
            Request::RefreshProxyPolicy => match engine.refresh_proxy_policy(registry) {
                Ok(()) => Ok(()),
                Err(e) => Err(e.to_string()),
            },
            _ => match engine.teardown_infra_if_idle() {
                Ok(()) => Ok(()),
                Err(e) => Err(e.to_string()),
            },
        };
        match rm_step(flow, answer, registry) {
            Progress::Continue(f) => {
                flow = f;
            },
            Progress::Finish(res) => {
                return res;
            },
        }
    }
}

} // verus!
