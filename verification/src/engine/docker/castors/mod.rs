//! Per-castor container lifecycle on Docker: the container name, and what
//! the output of each `docker` call means for the engine.

pub mod cmd;
pub mod status;

use vstd::prelude::*;

use crate::base::domain::CastorName;
use crate::engine::docker::{display_exit, exit_text, CommandOutput};
use crate::engine::docker::castors::status::{list_line_of, parse_inspect_status, parse_list_line, inspect_status_of};
use crate::engine::types::{CastorStatus, EngineError, ManagedContainer};
use crate::text::{contains_seq, contains_str, owned, push_str, split_spec, split_str, trim, trim_str};

verus! {

/// `castor-<name>`.
pub open spec fn container_name_of(name: Seq<char>) -> Seq<char> {
    "castor-"@ + name
}

/// Returns the Docker container name of a castor.
pub fn container_name(name: &CastorName) -> (r: String)
    ensures
        r@ == container_name_of(name@),
{
    let mut r = owned("castor-");
    push_str(&mut r, name.as_str());
    r
}

/// `r` failed with a backend error carrying `msg`.
pub open spec fn failed_with<T>(r: Result<T, EngineError>, msg: Seq<char>) -> bool {
    r matches Err(EngineError::Backend(m)) && m@ == msg
}

/// `<prefix><trimmed stderr>` as a backend error.
fn backend_error(prefix: &str, stderr: &str) -> (r: EngineError)
    ensures
        r matches EngineError::Backend(m) && m@ == prefix@ + trim(stderr@),
{
    let mut m = owned(prefix);
    let t = trim_str(stderr);
    push_str(&mut m, t.as_str());
    EngineError::Backend(m)
}

/// What `docker run` reported: success, or a backend error with its exit
/// code and trimmed stderr.
pub fn create_and_start(output: &CommandOutput) -> (r: Result<(), EngineError>)
    ensures
        output.success ==> r is Ok,
        !output.success ==> failed_with(
            r,
            "docker run failed (exit "@ + exit_text(output.code) + "): "@ + trim(output.stderr@),
        ),
{
    if output.success {
        return Ok(());
    }
    let mut m = owned("docker run failed (exit ");
    let e = display_exit(output.code);
    push_str(&mut m, e.as_str());
    push_str(&mut m, "): ");
    let t = trim_str(output.stderr.as_str());
    push_str(&mut m, t.as_str());
    Err(EngineError::Backend(m))
}

/// What `docker rm -f` reported: success, or a container that was already
/// gone, is fine; anything else is a backend error.
pub fn stop_and_remove(output: &CommandOutput) -> (r: Result<(), EngineError>)
    ensures
        (output.success || contains_seq(output.stderr@, "No such container"@)) ==> r is Ok,
        !(output.success || contains_seq(output.stderr@, "No such container"@)) ==> failed_with(
            r,
            "docker rm -f failed: "@ + trim(output.stderr@),
        ),
{
    if output.success {
        return Ok(());
    }
    if contains_str(output.stderr.as_str(), "No such container") {
        return Ok(());
    }
    Err(backend_error("docker rm -f failed: ", output.stderr.as_str()))
}

/// What `docker inspect` reported: the parsed status, [`CastorStatus::Missing`]
/// when there is no such container, or a backend error.
pub fn inspect_status(output: &CommandOutput) -> (r: Result<CastorStatus, EngineError>)
    ensures
        output.success ==> r == Ok::<CastorStatus, EngineError>(inspect_status_of(output.stdout@)),
        !output.success && (contains_seq(output.stderr@, "No such object"@) || contains_seq(
            output.stderr@,
            "No such container"@,
        )) ==> r == Ok::<CastorStatus, EngineError>(CastorStatus::Missing),
        !output.success && !(contains_seq(output.stderr@, "No such object"@) || contains_seq(
            output.stderr@,
            "No such container"@,
        )) ==> failed_with(r, "docker inspect failed: "@ + trim(output.stderr@)),
{
    if output.success {
        return Ok(parse_inspect_status(output.stdout.as_str()));
    }
    if contains_str(output.stderr.as_str(), "No such object") || contains_str(
        output.stderr.as_str(),
        "No such container",
    ) {
        return Ok(CastorStatus::Missing);
    }
    Err(backend_error("docker inspect failed: ", output.stderr.as_str()))
}

/// A line without its trailing `\r`.
pub open spec fn strip_cr(l: Seq<char>) -> Seq<char> {
    if l.len() > 0 && l.last() == '\r' {
        l.drop_last()
    } else {
        l
    }
}

/// `str::lines`: the text split at `\n`, each line without a trailing `\r`,
/// and no empty line after a final `\n`.
pub open spec fn lines_of(s: Seq<char>) -> Seq<Seq<char>> {
    let parts = split_spec(s, '\n');
    let kept = if parts.len() > 0 && parts.last().len() == 0 {
        parts.drop_last()
    } else {
        parts
    };
    kept.map_values(|l: Seq<char>| strip_cr(l))
}

/// The containers listed by lines of `docker ps` output, in order, skipping
/// lines that do not describe one.
pub open spec fn listed(lines: Seq<Seq<char>>) -> Seq<(Seq<char>, CastorStatus)>
    decreases lines.len(),
{
    if lines.len() == 0 {
        Seq::empty()
    } else {
        match list_line_of(lines.last()) {
            Some(c) => listed(lines.drop_last()).push(c),
            None => listed(lines.drop_last()),
        }
    }
}

/// The `(name, status)` pairs of managed containers.
pub open spec fn container_views(v: Seq<ManagedContainer>) -> Seq<(Seq<char>, CastorStatus)> {
    v.map_values(|m: ManagedContainer| (m.name@, m.status))
}

fn strip_cr_exec(l: &str) -> (r: String)
    ensures
        r@ == strip_cr(l@),
{
    let cs = crate::text::chars_of(l);
    if cs.len() > 0 && cs[cs.len() - 1] == '\r' {
        crate::text::string_of_range(&cs, 0, cs.len() - 1)
    } else {
        owned(l)
    }
}

/// What `docker ps` reported: the containers it lists (see [`listed`]), or
/// a backend error.
pub fn list_managed(output: &CommandOutput) -> (r: Result<Vec<ManagedContainer>, EngineError>)
    ensures
        output.success ==> (r matches Ok(v) && container_views(v@) == listed(
            lines_of(output.stdout@),
        )),
        !output.success ==> failed_with(r, "docker ps failed: "@ + trim(output.stderr@)),
{
    if !output.success {
        return Err(backend_error("docker ps failed: ", output.stderr.as_str()));
    }
    let parts = split_str(output.stdout.as_str(), '\n');
    let ghost pv = parts.deep_view();
    let n: usize = if parts.len() > 0 && parts[parts.len() - 1].unicode_len() == 0 {
        parts.len() - 1
    } else {
        parts.len()
    };
    let ghost kept = pv.take(n as int);
    assert(kept =~= (if pv.len() > 0 && pv.last().len() == 0 { pv.drop_last() } else { pv }));
    let ghost ls = kept.map_values(|l: Seq<char>| strip_cr(l));
    let mut out: Vec<ManagedContainer> = Vec::new();
    let mut i: usize = 0;
    assert(ls.take(0) =~= Seq::<Seq<char>>::empty());
    assert(container_views(out@) =~= Seq::<(Seq<char>, CastorStatus)>::empty());
    while i < n
        invariant
            i <= n <= parts@.len(),
            pv == parts.deep_view(),
            kept == pv.take(n as int),
            ls == kept.map_values(|l: Seq<char>| strip_cr(l)),
            container_views(out@) == listed(ls.take(i as int)),
        decreases n - i,
    {
        let line = strip_cr_exec(parts[i].as_str());
        assert(line@ == ls[i as int]);
        assert(ls.take(i + 1).drop_last() =~= ls.take(i as int));
        assert(ls.take(i + 1).last() == ls[i as int]);
        let ghost before = container_views(out@);
        match parse_list_line(line.as_str()) {
            Some(m) => {
                let ghost mv = (m.name@, m.status);
                out.push(m);
                assert(container_views(out@) =~= before.push(mv));
            },
            None => {},
        }
        i = i + 1;
    }
    assert(ls.take(n as int) =~= ls);
    Ok(out)
}

/// What `castors exec` does after inspecting the container.
#[derive(Debug, PartialEq, Eq)]
pub enum ExecShellStep {
    /// The castor has no container.
    Fail(EngineError),
    /// The container exited and must be started first.
    Start,
    /// The container runs; open the shell.
    Exec,
}

/// Decides the next step of `exec_shell` from the inspected status.
pub fn exec_shell_step(name: &CastorName, status: CastorStatus) -> (r: ExecShellStep)
    ensures
        match status {
            CastorStatus::Missing => r matches ExecShellStep::Fail(EngineError::NotFound(n)) && n@
                == name@,
            CastorStatus::Exited { .. } => r == ExecShellStep::Start,
            CastorStatus::Running => r == ExecShellStep::Exec,
        },
{
    match status {
        CastorStatus::Missing => ExecShellStep::Fail(EngineError::NotFound(name.clone())),
        CastorStatus::Exited { .. } => ExecShellStep::Start,
        CastorStatus::Running => ExecShellStep::Exec,
    }
}

/// What `docker start` reported before an exec.
pub fn exec_shell_started(output: &CommandOutput) -> (r: Result<(), EngineError>)
    ensures
        output.success ==> r is Ok,
        !output.success ==> failed_with(r, "docker start failed: "@ + trim(output.stderr@)),
{
    if output.success {
        Ok(())
    } else {
        Err(backend_error("docker start failed: ", output.stderr.as_str()))
    }
}

} // verus!
