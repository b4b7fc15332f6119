//! Lock-supervision decisions: whether the lock still holds, and what
//! happens when it ends.

use vstd::prelude::*;
use crate::action::{IdleAction, IdleActionBlock};
use crate::events::spec_first_of_kind;
use crate::state::{LockState, ManagerState, StateModel};

verus! {

/// What the supervisor's poll concludes from its probes, in their
/// order of authority: logind saying locked wins; else the supervised
/// process's liveness; else a name match on the probe command; with
/// nothing to go by, the lock is assumed to hold.
pub open spec fn spec_lock_still_active(
    logind: Option<bool>,
    info_present: bool,
    info_active: bool,
    cmd_present: bool,
    cmd_running: bool,
) -> bool {
    if logind == Some(true) {
        true
    } else if info_present {
        info_active
    } else if cmd_present {
        cmd_running
    } else {
        true
    }
}

/// Decide whether the lock still holds from the supervisor's probes.
pub fn lock_still_active(
    logind: Option<bool>,
    info_present: bool,
    info_active: bool,
    cmd_present: bool,
    cmd_running: bool,
) -> (r: bool)
    ensures
        r == spec_lock_still_active(logind, info_present, info_active, cmd_present, cmd_running),
{
    if logind.is_some() && matches!(logind, Some(true)) {
        true
    } else if info_present {
        info_active
    } else if cmd_present {
        cmd_running
    } else {
        true
    }
}

/// The lock action whose resume command the supervisor fires on unlock:
/// the first lock action across the three blocks, in block order.
pub open spec fn spec_unlock_resume_command(m: StateModel) -> Option<String> {
    let all = m.queue.default_actions + m.queue.ac_actions + m.queue.battery_actions;
    match spec_first_of_kind(all, IdleAction::LockScreen) {
        Some(a) => a.resume_command,
        None => None,
    }
}

/// The state after the lock ended: the supervised process is forgotten,
/// the post-lock bump is undone, the cursor rewinds, and the session
/// unlocks.
pub open spec fn spec_unlocked(m: StateModel) -> StateModel {
    StateModel {
        lock_state: LockState {
            is_locked: false,
            process_info: None,
            post_advanced: false,
            ..m.lock_state
        },
        queue: m.queue.with_index(0),
        ..m
    }
}

impl ManagerState {
    /// React to the end of the lock: forget the lock process, undo the
    /// post-lock bump, rewind the cursor and unlock. The returned
    /// command — the configured lock action's resume command, when it
    /// has one — must be spawned once; the caller then resets the
    /// timers as on activity.
    pub fn handle_unlock(&mut self) -> (r: Option<String>)
        ensures
            final(self)@ == spec_unlocked(old(self)@),
            r == spec_unlock_resume_command(old(self)@),
            old(self)@.inv() ==> final(self)@.inv(),
    {
        let ghost all = self@.queue.default_actions + self@.queue.ac_actions
            + self@.queue.battery_actions;
        let r = match crate::events::find_first_of_kind(
            &self.queue.default_actions,
            IdleAction::LockScreen,
        ) {
            Some(a) => {
                proof {
                    lemma_first_of_kind_append_left(
                        self@.queue.default_actions,
                        self@.queue.ac_actions + self@.queue.battery_actions,
                        IdleAction::LockScreen,
                    );
                    assert(self@.queue.default_actions + (self@.queue.ac_actions
                        + self@.queue.battery_actions) =~= all);
                }
                a.resume_command
            },
            None => {
                proof {
                    lemma_first_of_kind_append_left(
                        self@.queue.default_actions,
                        self@.queue.ac_actions + self@.queue.battery_actions,
                        IdleAction::LockScreen,
                    );
                    assert(self@.queue.default_actions + (self@.queue.ac_actions
                        + self@.queue.battery_actions) =~= all);
                }
                match crate::events::find_first_of_kind(
                    &self.queue.ac_actions,
                    IdleAction::LockScreen,
                ) {
                    Some(a) => {
                        proof {
                            lemma_first_of_kind_append_left(
                                self@.queue.ac_actions,
                                self@.queue.battery_actions,
                                IdleAction::LockScreen,
                            );
                        }
                        a.resume_command
                    },
                    None => {
                        proof {
                            lemma_first_of_kind_append_left(
                                self@.queue.ac_actions,
                                self@.queue.battery_actions,
                                IdleAction::LockScreen,
                            );
                        }
                        match crate::events::find_first_of_kind(
                            &self.queue.battery_actions,
                            IdleAction::LockScreen,
                        ) {
                            Some(a) => a.resume_command,
                            None => None,
                        }
                    },
                }
            },
        };
        self.lock_state.process_info = None;
        self.lock_state.post_advanced = false;
        self.queue.reset_index();
        self.lock_state.is_locked = false;
        proof {
            assert(self@ =~= spec_unlocked(old(self)@));
        }
        r
    }
}

/// Searching a concatenation for the first action of a kind finds the
/// left part's hit when there is one, and otherwise searches the right.
proof fn lemma_first_of_kind_append_left(
    a: Seq<IdleActionBlock>,
    b: Seq<IdleActionBlock>,
    kind: IdleAction,
)
    ensures
        spec_first_of_kind(a, kind) is Some ==> spec_first_of_kind(a + b, kind)
            == spec_first_of_kind(a, kind),
        spec_first_of_kind(a, kind) is None ==> spec_first_of_kind(a + b, kind)
            == spec_first_of_kind(b, kind),
{
    let fi = crate::events::first_kind_from(a, kind, 0);
    lemma_first_kind_bounds(a, kind, 0);
    if fi < a.len() {
        crate::events::lemma_first_kind_agree(a + b, kind, 0, fi);
    } else {
        let gi = crate::events::first_kind_from(b, kind, 0);
        lemma_first_kind_bounds(b, kind, 0);
        if gi < b.len() {
            crate::events::lemma_first_kind_agree(a + b, kind, 0, a.len() as int + gi);
        } else {
            crate::events::lemma_first_kind_agree(a + b, kind, 0, a.len() as int + b.len() as int);
        }
    }
}

/// The first-of-kind index points at its kind, with none before it.
proof fn lemma_first_kind_bounds(c: Seq<IdleActionBlock>, kind: IdleAction, i: int)
    requires
        0 <= i <= c.len(),
    ensures
        i <= crate::events::first_kind_from(c, kind, i) <= c.len(),
        crate::events::first_kind_from(c, kind, i) < c.len() ==> c[crate::events::first_kind_from(
            c,
            kind,
            i,
        )].kind == kind,
        forall|k: int|
            i <= k < crate::events::first_kind_from(c, kind, i) ==> (#[trigger] c[k]).kind
                != kind,
    decreases c.len() - i,
{
    if i < c.len() && c[i].kind != kind {
        lemma_first_kind_bounds(c, kind, i + 1);
    }
}

} // verus!
