//! `castors mitm`: MITM proxy maintenance.

use vstd::prelude::*;

use crate::base::domain::{home_dir, path_join};
use crate::base::paths::{join_path, state_dir_of, state_entry_in, INFRA_SUBDIR};
use crate::cli::{failure, CliError, Step};
use crate::engine::Engine;
use crate::text::owned;

verus! {

/// The arguments of `castors mitm`.
#[derive(Debug)]
pub struct MitmArgs {
    pub command: MitmCommand,
}

/// The `castors mitm` subcommands.
#[derive(Debug)]
pub enum MitmCommand {
    /// Generate/export the mitmproxy public CA certificate without creating
    /// a castor.
    Ca(CaArgs),
}

/// The arguments of `castors mitm ca`.
#[derive(Debug)]
pub struct CaArgs {
    /// Where to write the public CA certificate.
    pub out: Option<String>,
}

pub const CA_FILENAME: &'static str = "mitmproxy-ca-cert.cer";

/// The default certificate path for the home directory `home`.
pub open spec fn default_ca_path(home: Seq<char>) -> Seq<char> {
    path_join(path_join(state_dir_of(home), INFRA_SUBDIR@), CA_FILENAME@)
}

/// Where the certificate goes when no path is given, for the home
/// directory `home`: next to the generated infra files.
pub fn default_ca_output_path_in(home: &Option<String>) -> (r: Result<String, CliError>)
    ensures
        match home {
            Some(h) => r matches Ok(p) && p@ == default_ca_path(h@),
            None => r matches Err(e) && e.step == Step::Locate && e.message@
                == "unable to locate user home directory"@ && e.cause is None,
        },
{
    match state_entry_in(home, INFRA_SUBDIR) {
        Some(dir) => Ok(join_path(dir.as_str(), CA_FILENAME)),
        None => Err(
            CliError {
                step: Step::Locate,
                message: owned("unable to locate user home directory"),
                cause: None,
                notes: Vec::new(),
            },
        ),
    }
}

/// Where the certificate goes when no path is given: next to the generated
/// infra files.
pub fn default_ca_output_path() -> (r: Result<String, CliError>)
    ensures
        match r {
            Ok(p) => exists|h: Seq<char>| h.len() > 0 && p@ == default_ca_path(h),
            Err(e) => e.step == Step::Locate && e.message@
                == "unable to locate user home directory"@,
        },
{
    let home = home_dir();
    proof {
        match &home {
            Some(h) => {
                assert(h@.len() > 0);
            },
            None => {},
        }
    }
    default_ca_output_path_in(&home)
}

/// The certificate to write and where to write it.
#[derive(Debug, PartialEq, Eq)]
pub struct CaExport {
    pub out: String,
    pub certificate: Vec<u8>,
}

/// Ends `castors mitm ca` once the certificate export was answered with
/// `answer` (the error's text when it failed): the certificate goes to
/// `out`.
pub fn ca_finish(out: String, answer: Result<Vec<u8>, String>) -> (r: Result<CaExport, CliError>)
    ensures
        match answer {
            Ok(c) => r matches Ok(x) && x.out == out && x.certificate == c,
            Err(c) => r matches Err(e) && e.step == Step::Export && e.message@
                == "failed to generate MITM CA certificate"@ && e.cause == Some(c),
        },
{
    match answer {
        Ok(certificate) => Ok(CaExport { out, certificate }),
        Err(c) => Err(failure(Step::Export, owned("failed to generate MITM CA certificate"), c)),
    }
}

/// Runs `castors mitm ca`: decides the output path (the given one, else
/// the default), then obtains the public CA certificate. Writing the file
/// happens at the edge of the program.
pub fn run<E: Engine>(args: MitmArgs, engine: &E) -> (r: Result<CaExport, CliError>)
    ensures
        match r {
            Ok(x) => match args.command {
                MitmCommand::Ca(a) => match a.out {
                    Some(o) => x.out@ == o@,
                    None => exists|h: Seq<char>| h.len() > 0 && x.out@ == default_ca_path(h),
                },
            },
            Err(e) => match args.command {
                MitmCommand::Ca(a) => (e.step == Step::Locate && a.out is None && e.message@
                    == "unable to locate user home directory"@) || (e.step == Step::Export
                    && e.message@ == "failed to generate MITM CA certificate"@),
            },
        },
{
    match args.command {
        MitmCommand::Ca(ca) => {
            let out = match ca.out {
                Some(o) => o,
                None => match default_ca_output_path() {
                    Ok(p) => p,
                    Err(e) => return Err(e),
                },
            };
            let answer = match engine.export_mitm_ca_certificate() {
                Ok(certificate) => Ok(certificate),
                Err(e) => Err(e.to_string()),
            };
            ca_finish(out, answer)
        },
    }
}

} // verus!
