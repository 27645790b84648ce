//! The commands of the `castors` CLI.
//!
//! Each command is a function of what it needs: the parsed arguments, the
//! loaded configuration and registry, a container [`Engine`] and a
//! [`RegistryStore`]. Parsing the command line, loading files and printing
//! happen at the edge of the program; a command hands back the lines to
//! print, or the error to report.
//!
//! [`Engine`]: crate::engine::Engine
//! [`RegistryStore`]: crate::base::registry::RegistryStore

pub mod add;
pub mod display;
pub mod exec;
pub mod infra;
pub mod list;
pub mod mitm;
pub mod prune;
pub mod restart;
pub mod rm;

use vstd::prelude::*;

use crate::cli::add::AddArgs;
use crate::cli::exec::ExecArgs;
use crate::cli::infra::InfraArgs;
use crate::cli::mitm::MitmArgs;
use crate::cli::restart::RestartArgs;
use crate::cli::rm::RmArgs;
use crate::text::{owned, push_str};

verus! {

/// The parsed command line.
#[derive(Debug)]
pub struct Cli {
    pub command: Command,
}

/// The subcommands.
#[derive(Debug)]
pub enum Command {
    /// Add a new castor backed by a container image and a mounted directory.
    Add(AddArgs),
    /// Exec into the shell of an existing castor.
    Exec(ExecArgs),
    /// Shared infrastructure maintenance commands.
    Infra(InfraArgs),
    /// List all registered castors.
    List,
    /// MITM proxy maintenance commands.
    Mitm(MitmArgs),
    /// Recreate a castor from its current config.
    Restart(RestartArgs),
    /// Remove a castor.
    Rm(RmArgs),
    /// Remove all castors.
    Prune,
}

/// The step of a command that failed.
#[derive(Clone, Copy, Debug, PartialEq, Eq, Structural)]
pub enum Step {
    /// Choosing the castor's name and image.
    Identity,
    /// Looking up the castor.
    Lookup,
    /// Locating a default file.
    Locate,
    /// Checking the inputs.
    Validate,
    /// Bringing up the shared infrastructure.
    Infra,
    /// Stopping a container.
    Stop,
    /// Starting a container.
    Start,
    /// Updating the registry in memory.
    Register,
    /// Persisting the registry.
    Save,
    /// Refreshing the proxy policy.
    Refresh,
    /// Tearing down idle infrastructure.
    Teardown,
    /// Opening the shell.
    Shell,
    /// Exporting the MITM certificate.
    Export,
}

/// Why a command failed: the step, what the command was doing (the text
/// reported first) and, when another error caused it, that error's text;
/// with the warnings the command had already come to before it failed.
#[derive(Debug, PartialEq, Eq)]
pub struct CliError {
    pub step: Step,
    pub message: String,
    pub cause: Option<String>,
    pub notes: Vec<String>,
}

impl CliError {
    /// The error's own message.
    pub fn to_string(&self) -> (r: String)
        ensures
            r@ == self.message@,
    {
        self.message.clone()
    }

    /// The message followed by the cause, `message: cause`.
    pub fn full(&self) -> (r: String)
        ensures
            match self.cause {
                Some(c) => r@ == self.message@ + ": "@ + c@,
                None => r@ == self.message@,
            },
    {
        let mut r = self.message.clone();
        match &self.cause {
            Some(c) => {
                push_str(&mut r, ": ");
                push_str(&mut r, c.as_str());
            },
            None => {},
        }
        r
    }
}

/// Builds an error for `step` with `message` caused by `cause`.
pub fn failure(step: Step, message: String, cause: String) -> (r: CliError)
    ensures
        r.step == step,
        r.message == message,
        r.cause == Some(cause),
        r.notes@.len() == 0,
{
    CliError { step, message, cause: Some(cause), notes: Vec::new() }
}

/// `<prefix><name><suffix>`.
pub fn quoted(prefix: &str, name: &str, suffix: &str) -> (r: String)
    ensures
        r@ == prefix@ + name@ + suffix@,
{
    let mut r = owned(prefix);
    push_str(&mut r, name);
    push_str(&mut r, suffix);
    r
}

/// What a command asks for next, of the engine or of the registry store.
/// The data the request needs (the castor's entry, its configuration, the
/// castor to stop) is held by the command's state.
#[derive(Clone, Copy, Debug, PartialEq, Eq, Structural)]
pub enum Request {
    /// `Engine::ensure_infra` with the resolved configuration.
    EnsureInfra,
    /// `Engine::stop_and_remove` for a castor.
    StopAndRemove,
    /// `Engine::create_and_start` with the entry and its configuration.
    CreateAndStart,
    /// `RegistryStore::save` of the registry.
    SaveRegistry,
    /// `Engine::refresh_proxy_policy` with the registry.
    RefreshProxyPolicy,
    /// `Engine::teardown_infra_if_idle`.
    TeardownInfraIfIdle,
}

/// How a command goes on once a request was answered: with its next state,
/// or finished with its outcome.
pub enum Progress<F> {
    Continue(F),
    Finish(Result<Report, CliError>),
}

/// The step and message a command reports when `request` fails, for the
/// castor named `name` where the message names one.
pub open spec fn failure_of(request: Request, name: Seq<char>) -> (Step, Seq<char>) {
    match request {
        Request::EnsureInfra => (Step::Infra, "failed to bring up shared infrastructure"@),
        Request::StopAndRemove => (Step::Stop, "failed to stop container for castor '"@ + name
            + "'"@),
        Request::CreateAndStart => (Step::Start, "failed to start container for castor '"@ + name
            + "'"@),
        Request::SaveRegistry => (Step::Save, "failed to persist registry"@),
        Request::RefreshProxyPolicy => (Step::Refresh, "failed to refresh proxy policy"@),
        Request::TeardownInfraIfIdle => (Step::Teardown, "failed to tear down shared infrastructure"@),
    }
}

/// `r` is the failure of `request` (for the castor `name`), caused by an
/// answer with the text `cause`.
pub open spec fn failed_request(
    r: Result<Report, CliError>,
    request: Request,
    name: Seq<char>,
    cause: String,
) -> bool {
    r matches Err(e) && e.step == failure_of(request, name).0 && e.message@ == failure_of(
        request,
        name,
    ).1 && e.cause == Some(cause)
}

/// The failure of `request` for the castor `name`, caused by `cause`.
pub fn request_failure(request: Request, name: &str, cause: String) -> (r: CliError)
    ensures
        failed_request(Err(r), request, name@, cause),
        r.notes@.len() == 0,
{
    match request {
        Request::EnsureInfra => failure(Step::Infra, owned("failed to bring up shared infrastructure"), cause),
        Request::StopAndRemove => failure(
            Step::Stop,
            quoted("failed to stop container for castor '", name, "'"),
            cause,
        ),
        Request::CreateAndStart => failure(
            Step::Start,
            quoted("failed to start container for castor '", name, "'"),
            cause,
        ),
        Request::SaveRegistry => failure(Step::Save, owned("failed to persist registry"), cause),
        Request::RefreshProxyPolicy => failure(Step::Refresh, owned("failed to refresh proxy policy"), cause),
        Request::TeardownInfraIfIdle => failure(
            Step::Teardown,
            owned("failed to tear down shared infrastructure"),
            cause,
        ),
    }
}

/// What a command prints: lines for standard output and warnings for
/// standard error.
#[derive(Debug, PartialEq, Eq)]
pub struct Report {
    pub out: Vec<String>,
    pub warnings: Vec<String>,
}

} // verus!
