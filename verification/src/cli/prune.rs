//! `castors prune`: stop every castor's container, then empty the
//! registry, refresh the proxy policy and tear idle infrastructure down.

use vstd::prelude::*;

use crate::base::domain::CastorName;
use crate::base::registry::{EntryView, Registry, RegistryStore};
use crate::cli::{failed_request, request_failure, CliError, Progress, Report, Request, Step};
use crate::engine::Engine;
use crate::text::{decimal, decimal_string, owned, push_str};

verus! {

/// The state of `castors prune`: the names to stop, in name order, how many
/// are stopped, and what to ask next.
#[derive(Debug)]
pub struct PruneFlow {
    pub next: Request,
    pub names: Vec<CastorName>,
    pub stopped: usize,
}

/// The states `castors prune` passes through: stopping the containers one
/// by one, then saving, refreshing and tearing down.
pub open spec fn prune_stage(f: PruneFlow) -> bool {
    match f.next {
        Request::StopAndRemove => f.stopped < f.names@.len(),
        Request::SaveRegistry | Request::RefreshProxyPolicy | Request::TeardownInfraIfIdle => true,
        _ => false,
    }
}

/// The castor a failed request of `f` names: the one being stopped.
pub open spec fn prune_subject(f: PruneFlow) -> Seq<char> {
    if f.next == Request::StopAndRemove && f.stopped < f.names@.len() {
        f.names@[f.stopped as int]@
    } else {
        Seq::empty()
    }
}

/// `names` are the names of `entries`, in order.
pub open spec fn names_of(names: Seq<CastorName>, entries: Seq<EntryView>) -> bool {
    &&& names.len() == entries.len()
    &&& forall|i: int| 0 <= i < names.len() ==> #[trigger] names[i]@ == entries[i].name
}

/// Starts `castors prune`: the registered names in name order; the first
/// request stops the first castor, or saves the registry when there is
/// none.
pub fn prune_begin(registry: &Registry) -> (r: PruneFlow)
    ensures
        names_of(r.names@, registry.entries()),
        r.stopped == 0,
        registry.entries().len() == 0 ==> registry@ == Map::<Seq<char>, EntryView>::empty(),
        r.next == if registry.entries().len() > 0 {
            Request::StopAndRemove
        } else {
            Request::SaveRegistry
        },
{
    let names = registry.names();
    proof {
        if registry.entries().len() == 0 {
            assert(registry@ =~= Map::<Seq<char>, EntryView>::empty());
        }
    }
    let next = if names.len() > 0 {
        Request::StopAndRemove
    } else {
        Request::SaveRegistry
    };
    PruneFlow { next, names, stopped: 0 }
}

/// Goes on with `castors prune` once `flow.next` was answered with `answer`
/// (the error's text when it failed). Any failure ends the command with the
/// failure of that request, the registry as it was. The containers are
/// stopped in order; after the last one the registry is emptied and saved,
/// then the proxy policy is refreshed if there was any castor, and idle
/// infrastructure is torn down.
pub fn prune_step(flow: PruneFlow, answer: Result<(), String>, registry: &mut Registry) -> (r:
    Progress<PruneFlow>)
    requires
        prune_stage(flow),
    ensures
        final(registry).location() == old(registry).location(),
        match answer {
            Err(c) => final(registry)@ == old(registry)@ && (r matches Progress::Finish(res)
                && failed_request(res, flow.next, prune_subject(flow), c)),
            Ok(()) => match flow.next {
                Request::StopAndRemove => if flow.stopped + 1 < flow.names@.len() {
                    final(registry)@ == old(registry)@ && (r matches Progress::Continue(f) && f.next
                        == Request::StopAndRemove && f.names == flow.names && f.stopped
                        == flow.stopped + 1)
                } else {
                    final(registry)@ == Map::<Seq<char>, EntryView>::empty() && (r matches Progress::Continue(
                        f,
                    ) && f.next == Request::SaveRegistry && f.names == flow.names && f.stopped
                        == flow.names@.len())
                },
                Request::SaveRegistry => final(registry)@ == old(registry)@ && (r matches Progress::Continue(f)
                    && f.next == (if flow.names@.len() > 0 {
                    Request::RefreshProxyPolicy
                } else {
                    Request::TeardownInfraIfIdle
                }) && f.names == flow.names && f.stopped == flow.stopped),
                Request::RefreshProxyPolicy => final(registry)@ == old(registry)@
                    && (r matches Progress::Continue(f) && f.next == Request::TeardownInfraIfIdle
                    && f.names == flow.names && f.stopped == flow.stopped),
                _ => final(registry)@ == old(registry)@ && (r matches Progress::Finish(Ok(rep))
                    && rep.out@.len() == 1 && rep.out@[0]@ == "pruned "@ + decimal(flow.names@.len())
                    + " castor(s)"@ && rep.warnings@.len() == 0),
            },
        },
{
    match answer {
        Err(c) => {
            let e = match flow.next {
                Request::StopAndRemove => request_failure(
                    flow.next,
                    flow.names[flow.stopped].as_str(),
                    c,
                ),
                _ => {
                    proof {
                        reveal_strlit("");
                    }
                    request_failure(flow.next, "", c)
                },
            };
            Progress::Finish(Err(e))
        },
        Ok(()) => match flow.next {
            Request::StopAndRemove => {
                if flow.stopped < flow.names.len() - 1 {
                    Progress::Continue(
                        PruneFlow {
                            next: Request::StopAndRemove,
                            names: flow.names,
                            stopped: flow.stopped + 1,
                        },
                    )
                } else {
                    registry.clear();
                    let stopped = flow.names.len();
                    Progress::Continue(PruneFlow { next: Request::SaveRegistry, names: flow.names, stopped })
                }
            },
            Request::SaveRegistry => {
                let next = if flow.names.len() > 0 {
                    Request::RefreshProxyPolicy
                } else {
                    Request::TeardownInfraIfIdle
                };
                Progress::Continue(PruneFlow { next, names: flow.names, stopped: flow.stopped })
            },
            Request::RefreshProxyPolicy => Progress::Continue(
                PruneFlow {
                    next: Request::TeardownInfraIfIdle,
                    names: flow.names,
                    stopped: flow.stopped,
                },
            ),
            _ => {
                let mut line = owned("pruned ");
                let n = decimal_string(flow.names.len() as u64);
                push_str(&mut line, n.as_str());
                push_str(&mut line, " castor(s)");
                let mut out: Vec<String> = Vec::new();
                out.push(line);
                Progress::Finish(Ok(Report { out, warnings: Vec::new() }))
            },
        },
    }
}

/// How far `castors prune` still has to go from `f`.
pub open spec fn prune_remaining(f: PruneFlow) -> nat {
    match f.next {
        Request::StopAndRemove => (3 + f.names@.len() - f.stopped) as nat,
        Request::SaveRegistry => 3,
        Request::RefreshProxyPolicy => 2,
        _ => 1,
    }
}

/// Removes every castor, running [`prune_step`] against `engine` and
/// `store`. The containers are stopped in name order; the first failure
/// stops the command with the registry unchanged. The proxy policy is
/// refreshed only when something was removed.
#[verifier::loop_isolation(false)]
pub fn run<E: Engine, S: RegistryStore>(engine: &E, registry: &mut Registry, store: &S) -> (r:
    Result<Report, CliError>)
    ensures
        final(registry).location() == old(registry).location(),
        match r {
            Ok(rep) => final(registry)@ == Map::<Seq<char>, EntryView>::empty() && rep.out@.len()
                == 1 && rep.out@[0]@ == "pruned "@ + decimal(old(registry).entries().len())
                + " castor(s)"@,
            Err(e) => match e.step {
                Step::Stop => final(registry)@ == old(registry)@,
                Step::Save | Step::Refresh | Step::Teardown => final(registry)@ == Map::<
                    Seq<char>,
                    EntryView,
                >::empty(),
                _ => false,
            },
        },
{
    let ghost start = registry@;
    let ghost total = registry.entries().len();
    let mut flow = prune_begin(registry);
    loop
        invariant
            prune_stage(flow),
            flow.names@.len() == total,
            registry.location() == old(registry).location(),
            flow.next == Request::StopAndRemove ==> registry@ == start,
            flow.next != Request::StopAndRemove ==> registry@ == Map::<Seq<char>, EntryView>::empty(),
        decreases prune_remaining(flow),
    {
        let answer = match flow.next {
            Request::StopAndRemove => match engine.stop_and_remove(&flow.names[flow.stopped]) {
                Ok(()) => Ok(()),
                Err(e) => Err(e.to_string()),
            },
            Request::SaveRegistry => match store.save(registry) {
                Ok(()) => Ok(()),
                Err(e) => Err(e.to_string()),
            },
            Request::RefreshProxyPolicy => match engine.refresh_proxy_policy(registry) {
                Ok(()) => Ok(()),
                Err(e) => Err(e.to_string()),
            },
            _ => match engine.teardown_infra_if_idle() {
                Ok(()) => Ok(()),
                Err(e) => Err(e.to_string()),
            },
        };
        match prune_step(flow, answer, registry) {
            Progress::Continue(f) => {
                flow = f;
            },
            Progress::Finish(res) => {
                return res;
            },
        }
    }
}

} // verus!
