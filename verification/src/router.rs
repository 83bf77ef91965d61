//! The backend router: for each user operation the driver invokes the
//! primary package manager first, then consults the secondary record store;
//! this type fixes the decision rule that merges the two outcomes into one
//! exit code and one choice of diagnostics.

use vstd::prelude::*;

use crate::{ERROR_CODE, NOT_FOUND_CODE};

verus! {

/// User settings threaded into the router at construction.
pub struct Config {
    /// whether the primary package manager is invoked at all
    pub wrap_pacman: bool,
    /// whether output is colored (also forwarded to the primary tool)
    pub color: bool,
}

impl Default for Config {
    /// standard values for the settings
    fn default() -> (r: Self)
        ensures
            r.wrap_pacman,
            r.color,
    {
        Config { wrap_pacman: true, color: true }
    }
}

/// The argument vector handed to the primary tool: the user's raw arguments
/// with the color flag injected in front.
pub fn pacman_args(raw: &Vec<String>, color: bool) -> (r: Vec<String>)
    ensures
        r@.len() == raw@.len() + 2,
        r@[0]@ == "--color"@,
        color ==> r@[1]@ == "always"@,
        !color ==> r@[1]@ == "never"@,
        forall|i: int| 0 <= i < raw@.len() ==> r@[i + 2] == raw@[i],
{
    let mut r: Vec<String> = Vec::new();
    r.push(String::from_str("--color"));
    if color {
        r.push(String::from_str("always"));
    } else {
        r.push(String::from_str("never"));
    }
    let n = raw.len();
    let mut i: usize = 0;
    while i < n
        invariant
            i <= n,
            n == raw@.len(),
            r@.len() == i + 2,
            r@[0]@ == "--color"@,
            color ==> r@[1]@ == "always"@,
            !color ==> r@[1]@ == "never"@,
            forall|j: int| 0 <= j < i ==> r@[j + 2] == raw@[j],
        decreases n - i,
    {
        r.push(raw[i].clone());
        i += 1;
    }
    r
}

/// Where one routed operation stands.
#[derive(Debug, Clone, Copy, PartialEq, Eq, Structural)]
pub enum RouterState {
    /// nothing invoked yet
    Idle,
    /// the primary tool has run; its exit code is buffered
    PrimaryInvoked,
    /// the primary tool's result is surfaced (ownership short-circuit)
    ResolvedByPrimary,
    /// the secondary store had matches; they are shown and the run succeeds
    ResolvedBySecondary,
    /// neither backend had a result; the primary outcome is propagated
    NotFound,
    /// a launch or hydration failure aborted the operation
    Error,
    /// the exit decision has been consumed
    Done,
}

/// One user-facing operation moving through the router.
pub struct Router {
    pub config: Config,
    pub state: RouterState,
    /// the primary tool's buffered exit code
    pub primary_code: i32,
    /// the exit code decided at resolution
    pub exit: i32,
    /// whether the primary tool's buffered diagnostics must be replayed
    pub replay: bool,
}

impl Router {
    /// A fresh router for one operation.
    pub fn new(config: Config) -> (r: Router)
        ensures
            r.state == RouterState::Idle,
            r.config == config,
    {
        Router { config, state: RouterState::Idle, primary_code: 0, exit: 0, replay: false }
    }

    /// Buffer the primary tool's exit code; when the primary tool is not
    /// wrapped, the driver records success here.
    pub fn record_primary(&mut self, code: i32)
        requires
            old(self).state == RouterState::Idle,
        ensures
            final(self).state == RouterState::PrimaryInvoked,
            final(self).primary_code == code,
            final(self).config == old(self).config,
    {
        self.primary_code = code;
        self.state = RouterState::PrimaryInvoked;
    }

    /// The ownership short-circuit test: when the primary tool already
    /// answered with success, the secondary store is not consulted.
    pub fn primary_succeeded(&self) -> (r: bool)
        requires
            self.state == RouterState::PrimaryInvoked,
        ensures
            r == (self.primary_code == 0),
    {
        self.primary_code == 0
    }

    /// Surface the primary tool's own result: its exit code is propagated
    /// and nothing is replayed.
    pub fn resolve_primary(&mut self)
        requires
            old(self).state == RouterState::PrimaryInvoked,
        ensures
            final(self).state == RouterState::ResolvedByPrimary,
            final(self).exit == old(self).primary_code,
            !final(self).replay,
            final(self).config == old(self).config,
            final(self).primary_code == old(self).primary_code,
    {
        self.exit = self.primary_code;
        self.replay = false;
        self.state = RouterState::ResolvedByPrimary;
    }

    /// The general decision rule: with at least one secondary match the
    /// secondary results are shown and the run succeeds regardless of the
    /// primary exit code; with none, the primary tool's buffered
    /// diagnostics are replayed and its exit code is propagated verbatim.
    pub fn resolve_secondary(&mut self, secondary_hits: usize)
        requires
            old(self).state == RouterState::PrimaryInvoked,
        ensures
            secondary_hits > 0 ==> final(self).state == RouterState::ResolvedBySecondary
                && final(self).exit == 0 && !final(self).replay,
            secondary_hits == 0 ==> final(self).state == RouterState::NotFound && final(self).exit
                == old(self).primary_code && final(self).replay,
            final(self).config == old(self).config,
            final(self).primary_code == old(self).primary_code,
    {
        if secondary_hits > 0 {
            self.exit = 0;
            self.replay = false;
            self.state = RouterState::ResolvedBySecondary;
        } else {
            self.exit = self.primary_code;
            self.replay = true;
            self.state = RouterState::NotFound;
        }
    }

    /// The decision rule for the search operations: with at least one
    /// match the run succeeds; with none it exits with the not-found code,
    /// replaying nothing.
    pub fn resolve_search(&mut self, secondary_hits: usize)
        requires
            old(self).state == RouterState::PrimaryInvoked,
        ensures
            secondary_hits > 0 ==> final(self).state == RouterState::ResolvedBySecondary
                && final(self).exit == 0 && !final(self).replay,
            secondary_hits == 0 ==> final(self).state == RouterState::NotFound && final(self).exit
                == NOT_FOUND_CODE && !final(self).replay,
            final(self).config == old(self).config,
            final(self).primary_code == old(self).primary_code,
    {
        if secondary_hits > 0 {
            self.exit = 0;
            self.replay = false;
            self.state = RouterState::ResolvedBySecondary;
        } else {
            self.exit = NOT_FOUND_CODE;
            self.replay = false;
            self.state = RouterState::NotFound;
        }
    }

    /// A launch or hydration failure: the operation aborts with the
    /// generic error code.
    pub fn fail(&mut self)
        ensures
            final(self).state == RouterState::Error,
            final(self).exit == ERROR_CODE,
            !final(self).replay,
            final(self).config == old(self).config,
    {
        self.exit = ERROR_CODE;
        self.replay = false;
        self.state = RouterState::Error;
    }

    /// Consume the decision: the exit code for the process, with the state
    /// machine moved to its terminal state.
    pub fn finish(&mut self) -> (r: i32)
        requires
            old(self).state == RouterState::ResolvedByPrimary || old(self).state
                == RouterState::ResolvedBySecondary || old(self).state == RouterState::NotFound
                || old(self).state == RouterState::Error,
        ensures
            final(self).state == RouterState::Done,
            r == old(self).exit,
            final(self).replay == old(self).replay,
    {
        self.state = RouterState::Done;
        self.exit
    }
}

} // verus!
