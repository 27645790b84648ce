//! Docker backend: the argv of every `docker` / `docker compose` call, and
//! what their captured output means.
//!
//! Spawning the processes happens at the edge of the program; the functions
//! here build the argument lists and interpret a [`CommandOutput`].

pub mod castors;
pub mod infra;
pub mod labels;

use vstd::prelude::*;

use crate::text::{decimal, decimal_string, owned, push_str};

verus! {

/// Fixed network name declared by the shared infra compose file.
pub const SHARED_NETWORK_NAME: &'static str = "castors-shared";

/// Name of the CLI binary every command runs.
pub const DOCKER_BIN: &'static str = "docker";

/// What a finished `docker` process reported: whether it exited
/// successfully, its exit code (`None` when killed by a signal), and its
/// output decoded as UTF-8 (invalid sequences replaced).
#[derive(Debug, PartialEq, Eq)]
pub struct CommandOutput {
    pub success: bool,
    pub code: Option<i32>,
    pub stdout: String,
    pub stderr: String,
}

/// Decimal text of an `i32`, with a leading `-` when negative.
pub open spec fn int_decimal(i: int) -> Seq<char> {
    if i < 0 {
        seq!['-'] + decimal((-i) as nat)
    } else {
        decimal(i as nat)
    }
}

/// `i32::to_string`.
pub fn i32_string(i: i32) -> (r: String)
    ensures
        r@ == int_decimal(i as int),
{
    if i < 0 {
        let m: i64 = 0 - (i as i64);
        let mut r = String::new();
        crate::text::push_char(&mut r, '-');
        let d = decimal_string(m as u64);
        push_str(&mut r, d.as_str());
        assert(r@ =~= seq!['-'] + decimal((-i) as nat));
        r
    } else {
        decimal_string(i as u64)
    }
}

/// The exit code of a process, or `<signal>`.
pub open spec fn exit_text(code: Option<i32>) -> Seq<char> {
    match code {
        Some(c) => int_decimal(c as int),
        None => "<signal>"@,
    }
}

/// The exit code of a process as text, or `<signal>` when a signal ended it.
pub fn display_exit(code: Option<i32>) -> (r: String)
    ensures
        r@ == exit_text(code),
{
    match code {
        Some(c) => i32_string(c),
        None => owned("<signal>"),
    }
}

/// Appends one argument.
pub fn push_arg(args: &mut Vec<String>, a: &str)
    ensures
        final(args).deep_view() == old(args).deep_view().push(a@),
{
    let ghost before = args.deep_view();
    args.push(owned(a));
    assert(args.deep_view() =~= before.push(a@));
}

} // verus!
