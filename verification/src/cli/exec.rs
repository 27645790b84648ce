//! `castors exec`: open a shell inside a registered castor.

use vstd::prelude::*;

use crate::base::domain::CastorName;
use crate::base::registry::Registry;
use crate::cli::{failure, quoted, CliError, Report, Step};
use crate::engine::types::ShellExit;
use crate::engine::docker::int_decimal;
use crate::engine::Engine;
use crate::text::{owned, push_str, trim, trim_str};

verus! {

/// The arguments of `castors exec`.
#[derive(Debug)]
pub struct ExecArgs {
    /// Name of the castor to enter.
    pub castor_name: CastorName,
    /// Shell binary inside the container; the first available of
    /// `/bin/zsh`, `/bin/bash`, `/bin/sh` when omitted.
    pub shell: Option<String>,
}

/// The note about a shell that did not exit successfully.
pub open spec fn shell_note(code: Option<i32>) -> Option<Seq<char>> {
    match code {
        Some(c) => if c == 0 {
            None
        } else {
            Some("(shell exited with code "@ + int_decimal(c as int) + ")"@)
        },
        None => Some("(shell terminated by signal)"@),
    }
}

/// What `castors exec` asks the engine for: a shell in the castor's
/// container, the given shell binary or the first available one.
#[derive(Debug)]
pub struct ShellRequest {
    pub name: CastorName,
    pub shell: Option<String>,
}

/// Starts `castors exec`: the castor must be registered, and a shell given
/// must not be blank; the shell is handed on trimmed.
pub fn exec_begin(args: ExecArgs, registry: &Registry) -> (r: Result<ShellRequest, CliError>)
    ensures
        !registry@.contains_key(args.castor_name@) ==> (r matches Err(e) && e.step == Step::Lookup
            && e.message@ == "castor '"@ + args.castor_name@ + "' not found"@ && e.cause is None),
        registry@.contains_key(args.castor_name@) && (args.shell matches Some(s) && trim(s@).len()
            == 0) ==> (r matches Err(e) && e.step == Step::Validate && e.message@
            == "--shell must not be empty"@ && e.cause is None),
        registry@.contains_key(args.castor_name@) && !(args.shell matches Some(s) && trim(s@).len()
            == 0) ==> (r matches Ok(q) && q.name@ == args.castor_name@ && match args.shell {
            Some(s) => q.shell matches Some(t) && t@ == trim(s@),
            None => q.shell is None,
        }),
{
    let name = args.castor_name;
    if registry.get(&name).is_none() {
        return Err(
            CliError {
                step: Step::Lookup,
                message: quoted("castor '", name.as_str(), "' not found"),
                cause: None,
                notes: Vec::new(),
            },
        );
    }
    let shell: Option<String> = match &args.shell {
        None => None,
        Some(raw) => {
            let t = trim_str(raw.as_str());
            if t.unicode_len() == 0 {
                return Err(
                    CliError {
                        step: Step::Validate,
                        message: owned("--shell must not be empty"),
                        cause: None,
                        notes: Vec::new(),
                    },
                );
            }
            Some(t)
        },
    };
    Ok(ShellRequest { name, shell })
}

/// Ends `castors exec` once the shell was answered with `answer` (the
/// error's text when it could not be opened). The shell's own exit code is
/// informational: it is reported as a note, not as a failure.
pub fn exec_finish(name: &CastorName, answer: Result<ShellExit, String>) -> (r: Result<
    Report,
    CliError,
>)
    ensures
        match answer {
            Err(c) => r matches Err(e) && e.step == Step::Shell && e.message@
                == "failed to exec into castor '"@ + name@ + "'"@ && e.cause == Some(c),
            Ok(x) => r matches Ok(rep) && rep.out@.len() == 0 && match shell_note(x.code) {
                None => rep.warnings@.len() == 0,
                Some(n) => rep.warnings@.len() == 1 && rep.warnings@[0]@ == n,
            },
        },
{
    let status = match answer {
        Ok(s) => s,
        Err(c) => {
            let m = quoted("failed to exec into castor '", name.as_str(), "'");
            return Err(failure(Step::Shell, m, c));
        },
    };
    let mut warnings: Vec<String> = Vec::new();
    if !status.success() {
        match status.code {
            Some(code) => {
                let mut w = owned("(shell exited with code ");
                let c = crate::engine::docker::i32_string(code);
                push_str(&mut w, c.as_str());
                push_str(&mut w, ")");
                warnings.push(w);
            },
            None => warnings.push(owned("(shell terminated by signal)")),
        }
    }
    Ok(Report { out: Vec::new(), warnings })
}

/// Opens a shell in a registered castor: [`exec_begin`], the engine's
/// shell, then [`exec_finish`].
pub fn run<E: Engine>(args: ExecArgs, engine: &E, registry: &Registry) -> (r: Result<
    Report,
    CliError,
>)
    ensures
        !registry@.contains_key(args.castor_name@) ==> (r matches Err(e) && e.step == Step::Lookup
            && e.message@ == "castor '"@ + args.castor_name@ + "' not found"@),
        registry@.contains_key(args.castor_name@) && (args.shell matches Some(s) && trim(s@).len()
            == 0) ==> (r matches Err(e) && e.step == Step::Validate && e.message@
            == "--shell must not be empty"@),
        match r {
            Ok(rep) => registry@.contains_key(args.castor_name@) && (args.shell matches Some(s)
                ==> trim(s@).len() > 0),
            Err(e) => e.step == Step::Lookup || e.step == Step::Validate || (e.step == Step::Shell
                && e.message@ == "failed to exec into castor '"@ + args.castor_name@ + "'"@),
        },
        r matches Ok(rep) ==> rep.out@.len() == 0 && exists|code: Option<i32>|
            match #[trigger] shell_note(code) {
                None => rep.warnings@.len() == 0,
                Some(n) => rep.warnings@.len() == 1 && rep.warnings@[0]@ == n,
            },
{
    let request = match exec_begin(args, registry) {
        Ok(q) => q,
        Err(e) => return Err(e),
    };
    let shell: Option<&str> = match &request.shell {
        Some(t) => Some(t.as_str()),
        None => None,
    };
    let answer = match engine.exec_shell(&request.name, shell) {
        Ok(x) => Ok(x),
        Err(e) => Err(e.to_string()),
    };
    let ghost code = match answer {
        Ok(x) => x.code,
        Err(_) => None,
    };
    let ghost note = shell_note(code);
    exec_finish(&request.name, answer)
}

} // verus!
