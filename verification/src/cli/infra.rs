//! `castors infra`: shared infrastructure maintenance.

use vstd::prelude::*;

use crate::base::registry::Registry;
use crate::cli::{failure, CliError, Report, Step};
use crate::engine::Engine;
use crate::text::owned;

verus! {

/// The arguments of `castors infra`.
#[derive(Debug)]
pub struct InfraArgs {
    pub command: InfraCommand,
}

/// The `castors infra` subcommands.
#[derive(Debug, PartialEq, Eq)]
pub enum InfraCommand {
    /// Re-read config and apply proxy policy for registered castors.
    Refresh,
}

/// Runs an infra subcommand.
pub fn run<E: Engine>(args: InfraArgs, engine: &E, registry: &Registry) -> (r: Result<
    Report,
    CliError,
>)
    ensures
        match r {
            Ok(rep) => rep.out@.len() == 1 && rep.out@[0]@ == "refreshed infrastructure policy"@,
            Err(e) => e.step == Step::Refresh && e.message@
                == "failed to refresh infrastructure policy"@,
        },
{
    match args.command {
        InfraCommand::Refresh => refresh(engine, registry),
    }
}

/// Ends `castors infra refresh` once the policy refresh was answered with
/// `answer` (the error's text when it failed).
pub fn refresh_finish(answer: Result<(), String>) -> (r: Result<Report, CliError>)
    ensures
        match answer {
            Ok(()) => r matches Ok(rep) && rep.out@.len() == 1 && rep.out@[0]@
                == "refreshed infrastructure policy"@ && rep.warnings@.len() == 0,
            Err(c) => r matches Err(e) && e.step == Step::Refresh && e.message@
                == "failed to refresh infrastructure policy"@ && e.cause == Some(c),
        },
{
    match answer {
        Ok(()) => {
            let mut out: Vec<String> = Vec::new();
            out.push(owned("refreshed infrastructure policy"));
            Ok(Report { out, warnings: Vec::new() })
        },
        Err(c) => Err(failure(Step::Refresh, owned("failed to refresh infrastructure policy"), c)),
    }
}

fn refresh<E: Engine>(engine: &E, registry: &Registry) -> (r: Result<Report, CliError>)
    ensures
        match r {
            Ok(rep) => rep.out@.len() == 1 && rep.out@[0]@ == "refreshed infrastructure policy"@,
            Err(e) => e.step == Step::Refresh && e.message@
                == "failed to refresh infrastructure policy"@,
        },
{
    let answer = match engine.refresh_proxy_policy(registry) {
        Ok(()) => Ok(()),
        Err(e) => Err(e.to_string()),
    };
    refresh_finish(answer)
}

} // verus!
