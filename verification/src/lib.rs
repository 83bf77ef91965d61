//! Metadata aggregation engine for sandboxed application packages: parsers
//! for the package tool's text output formats, an in-memory record store
//! with lazy hydration, a substring search engine, and the routing logic
//! that merges the primary package manager's outcome with this store's.

use vstd::prelude::*;

pub mod datefmt;
pub mod infoparse;
pub mod meta;
pub mod owner;
pub mod record;
pub mod router;
pub mod search;
pub mod searchparse;
pub mod strutil;
pub mod textops;
pub mod walk;

verus! {

/// Exit code used when a query finds no matching package.
pub const NOT_FOUND_CODE: i32 = 1;

/// Exit code used for unexpected failures in this program or a called tool.
pub const ERROR_CODE: i32 = 255;

/// The exit code a finished child process maps to: its own code when it has
/// one, the generic error code when it was terminated without one.
pub fn exit_code_or_error(code: Option<i32>) -> (r: i32)
    ensures
        code is Some ==> r == code->0,
        code is None ==> r == ERROR_CODE,
{
    match code {
        Some(c) => c,
        None => ERROR_CODE,
    }
}

} // verus!
