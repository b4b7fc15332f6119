//! Actions: named external commands with a kind, a timeout and the
//! bookkeeping the staged scheduler needs.

use vstd::prelude::*;

verus! {

/// All times handled by the core are milliseconds on a monotonic clock.
/// The core accepts clock readings up to this bound, which leaves ample
/// headroom for every sum of a reading and a configured duration.
pub const MAX_INSTANT: u64 = 0x4000_0000_0000_0000;

/// Any duration derived from a configured number of seconds (a `u32`)
/// stays under this many milliseconds.
pub const MAX_DUR_MS: u64 = 0x800_0000_0000;

/// Timestamps stored inside the state (`last_triggered`, the debounce end)
/// stay under this bound: a clock reading plus at most one duration.
pub const TS_BOUND: u64 = MAX_INSTANT + MAX_DUR_MS;

/// The closed set of action kinds.
#[derive(Clone, Copy, Debug, PartialEq, Eq, Structural)]
pub enum IdleAction {
    LockScreen,
    Suspend,
    Dpms,
    Brightness,
    Custom,
}

/// One configured action. `timeout` is in seconds; zero marks an instant
/// action, which fires once at startup or on a block switch and never
/// takes part in the staged timeline. `last_triggered` is a millisecond
/// instant, set when the scheduler fires the action.
#[derive(Debug)]
pub struct IdleActionBlock {
    pub name: String,
    pub kind: IdleAction,
    pub timeout: u32,
    pub command: String,
    pub lock_command: Option<String>,
    pub resume_command: Option<String>,
    pub notification: Option<String>,
    pub last_triggered: Option<u64>,
}

impl IdleActionBlock {
    /// An action outside the staged timeline: fired only at startup and on
    /// block switches.
    pub open spec fn spec_is_instant(&self) -> bool {
        self.timeout == 0
    }

    #[verifier::when_used_as_spec(spec_is_instant)]
    pub fn is_instant(&self) -> (r: bool)
        ensures
            r == self.spec_is_instant(),
    {
        self.timeout == 0
    }

    /// The configured timeout in milliseconds.
    pub open spec fn spec_timeout_ms(&self) -> int {
        self.timeout * 1000
    }

    pub fn timeout_ms(&self) -> (r: u64)
        ensures
            r == self.spec_timeout_ms(),
            r < MAX_DUR_MS,
    {
        (self.timeout as u64) * 1000
    }

    /// Every stored trigger stamp stays under `TS_BOUND`.
    pub open spec fn ts_ok(&self) -> bool {
        self.last_triggered matches Some(t) ==> t <= TS_BOUND
    }
}

impl Clone for IdleActionBlock {
    fn clone(&self) -> (res: Self)
        ensures
            res == *self,
    {
        IdleActionBlock {
            name: self.name.clone(),
            kind: self.kind,
            timeout: self.timeout,
            command: self.command.clone(),
            lock_command: clone_opt_string(&self.lock_command),
            resume_command: clone_opt_string(&self.resume_command),
            notification: clone_opt_string(&self.notification),
            last_triggered: self.last_triggered,
        }
    }
}

/// Copy an optional string, preserving the value exactly.
pub fn clone_opt_string(s: &Option<String>) -> (res: Option<String>)
    ensures
        res == *s,
{
    match s {
        Some(v) => Some(v.clone()),
        None => None,
    }
}

} // verus!
