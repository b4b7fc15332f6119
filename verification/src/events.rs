//! The event router: one enum of session events, and the single
//! serialized entry point that maps each event onto the manager state.

use vstd::prelude::*;
use crate::action::{IdleAction, IdleActionBlock, MAX_INSTANT};
use crate::config::{LidCloseAction, LidOpenAction};
use crate::manager::{
    decr_fires, released_outcome_matches, reset_outcome_commands, reset_outcome_matches,
    spec_reset, spec_reset_stopped, ResetOutcome,
};
use crate::state::{ManagerState, StateModel};

verus! {

/// Everything a source adapter can report.
#[derive(Clone, Copy, Debug, PartialEq, Eq, Structural)]
pub enum Event {
    InputActivity,
    MediaPlaybackActive,
    MediaPlaybackEnded,
    ACConnected,
    ACDisconnected,
    LockScreenDetected,
    Suspend,
    Wake,
    Resume,
    LidClosed,
    LidOpened,
    LoginctlLock,
    LoginctlUnlock,
}

/// What the daemon must do after an event was applied to the state.
pub struct EventOutcome {
    /// Recompute the scheduler's next wake.
    pub wake_scheduler: bool,
    /// Wake the lock supervisor.
    pub wake_lock_watcher: bool,
    /// Brightness to restore and resume commands to spawn, when the
    /// event reset the timers.
    pub reset: Option<ResetOutcome>,
    /// Actions to drive through the action-run pipeline, in order.
    pub run_actions: Vec<IdleActionBlock>,
    /// Commands to spawn detached, in order.
    pub spawn_detached: Vec<String>,
    /// A lock command to spawn detached and hand back to
    /// `record_lock_process`.
    pub run_lock_command: Option<String>,
}

/// The index of the first action of a kind at or after `i`, or the
/// length when there is none.
pub open spec fn first_kind_from(
    actions: Seq<IdleActionBlock>,
    kind: IdleAction,
    i: int,
) -> int
    decreases actions.len() - i,
{
    if i < 0 || i >= actions.len() {
        actions.len() as int
    } else if actions[i].kind == kind {
        i
    } else {
        first_kind_from(actions, kind, i + 1)
    }
}

/// The first configured action of a kind, when there is one.
pub open spec fn spec_first_of_kind(actions: Seq<IdleActionBlock>, kind: IdleAction) -> Option<
    IdleActionBlock,
> {
    let fi = first_kind_from(actions, kind, 0);
    if fi < actions.len() {
        Some(actions[fi])
    } else {
        None
    }
}

pub proof fn lemma_first_kind_agree(actions: Seq<IdleActionBlock>, kind: IdleAction, i: int, j: int)
    requires
        0 <= i <= j <= actions.len(),
        forall|k: int| i <= k < j ==> actions[k].kind != kind,
        j < actions.len() ==> actions[j].kind == kind,
    ensures
        first_kind_from(actions, kind, i) == if j < actions.len() {
            j
        } else {
            actions.len() as int
        },
    decreases j - i,
{
    if i < j {
        lemma_first_kind_agree(actions, kind, i + 1, j);
    }
}

/// Find the first configured action of a kind.
pub fn find_first_of_kind(actions: &Vec<IdleActionBlock>, kind: IdleAction) -> (r: Option<
    IdleActionBlock,
>)
    ensures
        r == spec_first_of_kind(actions@, kind),
{
    let mut i: usize = 0;
    while i < actions.len()
        invariant
            0 <= i <= actions@.len(),
            forall|k: int| 0 <= k < i ==> actions@[k].kind != kind,
        decreases actions@.len() - i,
    {
        if actions[i].kind == kind {
            proof {
                lemma_first_kind_agree(actions@, kind, 0, i as int);
            }
            return Some(actions[i].clone());
        }
        i = i + 1;
    }
    proof {
        lemma_first_kind_agree(actions@, kind, 0, actions@.len() as int);
    }
    None
}

/// The lock command the loginctl path runs: the first configured lock
/// action's `lock_command`, when set.
pub open spec fn spec_loginctl_lock_command(actions: Seq<IdleActionBlock>) -> Option<String> {
    match spec_first_of_kind(actions, IdleAction::LockScreen) {
        Some(a) => a.lock_command,
        None => None,
    }
}

/// The state after an `InputActivity`-like reset.
pub open spec fn spec_after_activity(m: StateModel, now: u64, lock_alive: bool) -> StateModel {
    spec_reset(m, now, lock_alive)
}

/// The state after an AC/battery edge: power recorded, cursor rewound,
/// instants re-armed and then marked fired.
pub open spec fn spec_after_power_edge(m: StateModel, on_battery: bool) -> StateModel {
    let m1 = crate::state::spec_set_on_battery(m, on_battery);
    let m2 = StateModel { queue: m1.queue.with_index(0).with_instants_reset(), ..m1 };
    m2.instants_done_state()
}

/// The instant actions an AC/battery edge hands the daemon: the
/// instants of the block active after the edge.
pub open spec fn spec_power_edge_instants(m: StateModel, on_battery: bool) -> Seq<
    IdleActionBlock,
> {
    crate::state::spec_set_on_battery(m, on_battery).queue.active().filter(
        |a: IdleActionBlock| a.spec_is_instant(),
    )
}

/// What the merged outcome of an auto-resume followed by a reset
/// reports: the brightness captured before either step, and — whether
/// the release's drain or the reset's hands them out — the whole
/// resume queue, unless nothing released and the reset stopped early.
pub open spec fn wake_outcome_matches(
    o: ResetOutcome,
    m: StateModel,
    now: u64,
    lock_alive: bool,
) -> bool {
    let mid = ManagerState::spec_decr(m, now, lock_alive);
    &&& o.restore_brightness == m.previous_brightness
    &&& (o.restore_brightness is Some ==> o.brightness_device == m.brightness_device)
    &&& o.stopped_at_instant == spec_reset_stopped(mid)
    &&& o.resume_commands@ == (if decr_fires(m) {
        crate::manager::resume_commands_of(m.queue.resume_queue)
    } else {
        reset_outcome_commands(mid)
    })
}

/// Combine the outcome of an auto-resume (when it released the last
/// inhibitor) with the outcome of the reset that follows it.
fn merge_reset_outcomes(first: Option<ResetOutcome>, second: ResetOutcome) -> (r: ResetOutcome)
    ensures
        r.resume_commands@ == (match first {
            Some(f) => f.resume_commands@ + second.resume_commands@,
            None => second.resume_commands@,
        }),
        r.restore_brightness == (match first {
            Some(f) => if f.restore_brightness is Some {
                f.restore_brightness
            } else {
                second.restore_brightness
            },
            None => second.restore_brightness,
        }),
        r.brightness_device == (match first {
            Some(f) => if f.restore_brightness is Some {
                f.brightness_device
            } else {
                second.brightness_device
            },
            None => second.brightness_device,
        }),
        r.stopped_at_instant == second.stopped_at_instant,
{
    match first {
        Some(f) => {
            let mut second = second;
            let first_restored = f.restore_brightness.is_some();
            let mut commands = f.resume_commands;
            commands.append(&mut second.resume_commands);
            ResetOutcome {
                restore_brightness: if first_restored {
                    f.restore_brightness
                } else {
                    second.restore_brightness
                },
                brightness_device: if first_restored {
                    f.brightness_device
                } else {
                    second.brightness_device
                },
                resume_commands: commands,
                stopped_at_instant: second.stopped_at_instant,
            }
        },
        None => second,
    }
}

impl ManagerState {
    /// Apply one event. The outcome says what the daemon must do:
    /// which tasks to wake, which commands to spawn, which actions to
    /// drive through the run pipeline. `now` is the current instant;
    /// `lock_alive` is the daemon's probe of the lock command, consulted
    /// only on paths that reset the timers while locked.
    #[verifier::rlimit(100)]
    pub fn handle_event(&mut self, event: Event, now: u64, lock_alive: bool) -> (r:
        EventOutcome)
        requires
            old(self)@.inv(),
            now <= MAX_INSTANT,
        ensures
            final(self)@.inv(),
            event == Event::InputActivity ==> final(self)@ == spec_after_activity(
                old(self)@,
                now,
                lock_alive,
            ) && r.wake_scheduler && r.wake_lock_watcher && (r.reset matches Some(o)
                && reset_outcome_matches(o, old(self)@)),
            event == Event::ACConnected ==> final(self)@ == spec_after_power_edge(
                old(self)@,
                false,
            ) && r.wake_scheduler && r.run_actions@ == spec_power_edge_instants(
                old(self)@,
                false,
            ),
            event == Event::ACDisconnected ==> final(self)@ == spec_after_power_edge(
                old(self)@,
                true,
            ) && r.wake_scheduler && r.run_actions@ == spec_power_edge_instants(
                old(self)@,
                true,
            ),
            event == Event::Suspend ==> final(self)@ == old(self)@.inhibited_state(),
            event == Event::Resume ==> final(self)@ == Self::spec_decr(
                old(self)@,
                now,
                lock_alive,
            ) && r.wake_scheduler && (r.reset is Some) == decr_fires(old(self)@) && (r.reset
                matches Some(o) ==> released_outcome_matches(o, old(self)@)),
            event == Event::Wake ==> final(self)@ == spec_reset(
                Self::spec_decr(old(self)@, now, lock_alive),
                now,
                lock_alive,
            ) && r.wake_scheduler && (r.reset matches Some(o) && wake_outcome_matches(
                o,
                old(self)@,
                now,
                lock_alive,
            )),
            event == Event::MediaPlaybackActive ==> final(self)@ == old(
                self,
            )@.inhibited_state() && r.wake_scheduler,
            event == Event::MediaPlaybackEnded ==> final(self)@ == Self::spec_decr(
                old(self)@,
                now,
                lock_alive,
            ) && r.wake_scheduler && (r.reset is Some) == decr_fires(old(self)@) && (r.reset
                matches Some(o) ==> released_outcome_matches(o, old(self)@)),
            event == Event::LockScreenDetected ==> final(self)@ == old(
                self,
            )@.advanced_past_lock_state(now) && r.wake_scheduler,
            event == Event::LidClosed ==> final(self)@ == old(self)@ && (match old(
                self,
            )@.cfg.lid_close_action {
                LidCloseAction::Ignore => r.run_actions@.len() == 0 && r.spawn_detached@.len()
                    == 0,
                LidCloseAction::Suspend => r.run_actions@ == (match spec_first_of_kind(
                    old(self)@.cfg.actions,
                    IdleAction::Suspend,
                ) {
                    Some(a) => seq![a],
                    None => Seq::<IdleActionBlock>::empty(),
                }),
                LidCloseAction::LockScreen => r.run_actions@ == (match spec_first_of_kind(
                    old(self)@.cfg.actions,
                    IdleAction::LockScreen,
                ) {
                    Some(a) => seq![a],
                    None => Seq::<IdleActionBlock>::empty(),
                }),
                LidCloseAction::Custom(cmd) => r.spawn_detached@ == seq![cmd],
            }),
            event == Event::LidOpened ==> (match old(self)@.cfg.lid_open_action {
                LidOpenAction::Ignore => final(self)@ == old(self)@,
                LidOpenAction::Wake => final(self)@ == spec_reset(
                    Self::spec_decr(old(self)@, now, lock_alive),
                    now,
                    lock_alive,
                ) && r.wake_scheduler && (r.reset matches Some(o) && wake_outcome_matches(
                    o,
                    old(self)@,
                    now,
                    lock_alive,
                )),
                LidOpenAction::Custom(cmd) => final(self)@ == old(self)@ && r.spawn_detached@
                    == seq![cmd],
            }),
            (event == Event::LoginctlLock && old(self)@.lock_state.is_locked) ==> final(self)@
                == old(self)@,
            (event == Event::LoginctlLock && !old(self)@.lock_state.is_locked) ==> (final(self)@
                == crate::manager::locked_marked(old(self)@).advanced_past_lock_state(now)
                && r.wake_lock_watcher && r.wake_scheduler && r.run_lock_command
                == spec_loginctl_lock_command(old(self)@.cfg.actions)),
            event == Event::LoginctlUnlock ==> final(self)@ == spec_reset(
                old(self)@,
                now,
                lock_alive,
            ) && r.wake_scheduler && r.wake_lock_watcher && (r.reset matches Some(o)
                && reset_outcome_matches(o, old(self)@)),
    {
        let mut r = EventOutcome {
            wake_scheduler: false,
            wake_lock_watcher: false,
            reset: None,
            run_actions: Vec::new(),
            spawn_detached: Vec::new(),
            run_lock_command: None,
        };
        match event {
            Event::InputActivity => {
                let reset = self.reset(now, lock_alive);
                r.reset = Some(reset);
                r.wake_lock_watcher = true;
                r.wake_scheduler = true;
            },
            Event::ACConnected => {
                self.set_on_battery(false);
                self.queue.reset_index();
                self.reset_instant_actions();
                r.run_actions = self.trigger_instant_actions();
                r.wake_scheduler = true;
                proof {
                    assert(self@ =~= spec_after_power_edge(old(self)@, false));
                }
            },
            Event::ACDisconnected => {
                self.set_on_battery(true);
                self.queue.reset_index();
                self.reset_instant_actions();
                r.run_actions = self.trigger_instant_actions();
                r.wake_scheduler = true;
                proof {
                    assert(self@ =~= spec_after_power_edge(old(self)@, true));
                }
            },
            Event::Suspend => {
                self.pause(false);
            },
            Event::Resume => {
                r.reset = self.resume(false, now, lock_alive);
                r.wake_scheduler = true;
            },
            Event::Wake => {
                let first = self.resume(false, now, lock_alive);
                let second = self.reset(now, lock_alive);
                let merged = merge_reset_outcomes(first, second);
                proof {
                    let ghost mid = Self::spec_decr(old(self)@, now, lock_alive);
                    if decr_fires(old(self)@) {
                        reveal_with_fuel(Seq::filter, 2);
                        assert(crate::manager::resume_commands_of(
                            mid.queue.resume_queue,
                        ) =~= Seq::<String>::empty());
                        assert(merged.resume_commands@ =~= crate::manager::resume_commands_of(
                            old(self)@.queue.resume_queue,
                        ));
                    }
                    assert(wake_outcome_matches(merged, old(self)@, now, lock_alive));
                }
                r.reset = Some(merged);
                r.wake_scheduler = true;
            },
            Event::MediaPlaybackActive => {
                self.pause(false);
                r.wake_scheduler = true;
            },
            Event::MediaPlaybackEnded => {
                r.reset = self.resume(false, now, lock_alive);
                r.wake_scheduler = true;
            },
            Event::LockScreenDetected => {
                self.advance_past_lock(now);
                r.wake_scheduler = true;
            },
            Event::LidClosed => {
                match &self.cfg.lid_close_action {
                    LidCloseAction::Ignore => {},
                    LidCloseAction::Suspend => {
                        match find_first_of_kind(&self.cfg.actions, IdleAction::Suspend) {
                            Some(a) => {
                                r.run_actions.push(a);
                            },
                            None => {},
                        }
                    },
                    LidCloseAction::LockScreen => {
                        match find_first_of_kind(&self.cfg.actions, IdleAction::LockScreen) {
                            Some(a) => {
                                r.run_actions.push(a);
                            },
                            None => {},
                        }
                    },
                    LidCloseAction::Custom(cmd) => {
                        let c = cmd.clone();
                        r.spawn_detached.push(c);
                    },
                }
                proof {
                    assert(r.run_actions@ =~= (match old(self)@.cfg.lid_close_action {
                        LidCloseAction::Suspend => (match spec_first_of_kind(
                            old(self)@.cfg.actions,
                            IdleAction::Suspend,
                        ) {
                            Some(a) => seq![a],
                            None => Seq::<IdleActionBlock>::empty(),
                        }),
                        LidCloseAction::LockScreen => (match spec_first_of_kind(
                            old(self)@.cfg.actions,
                            IdleAction::LockScreen,
                        ) {
                            Some(a) => seq![a],
                            None => Seq::<IdleActionBlock>::empty(),
                        }),
                        _ => r.run_actions@,
                    }));
                }
            },
            Event::LidOpened => {
                let action = self.cfg.lid_open_action.clone();
                match action {
                    LidOpenAction::Ignore => {},
                    LidOpenAction::Wake => {
                        let first = self.resume(false, now, lock_alive);
                        let second = self.reset(now, lock_alive);
                        let merged = merge_reset_outcomes(first, second);
                        proof {
                            let ghost mid = Self::spec_decr(old(self)@, now, lock_alive);
                            if decr_fires(old(self)@) {
                                reveal_with_fuel(Seq::filter, 2);
                                assert(crate::manager::resume_commands_of(
                                    mid.queue.resume_queue,
                                ) =~= Seq::<String>::empty());
                                assert(merged.resume_commands@
                                    =~= crate::manager::resume_commands_of(
                                    old(self)@.queue.resume_queue,
                                ));
                            }
                            assert(wake_outcome_matches(merged, old(self)@, now, lock_alive));
                        }
                        r.reset = Some(merged);
                        r.wake_scheduler = true;
                    },
                    LidOpenAction::Custom(cmd) => {
                        r.spawn_detached.push(cmd);
                    },
                }
            },
            Event::LoginctlLock => {
                if !self.lock_state.is_locked {
                    let lock_action = find_first_of_kind(
                        &self.cfg.actions,
                        IdleAction::LockScreen,
                    );
                    self.lock_state.is_locked = true;
                    r.wake_lock_watcher = true;
                    r.run_lock_command = match lock_action {
                        Some(a) => a.lock_command,
                        None => None,
                    };
                    self.advance_past_lock(now);
                    r.wake_scheduler = true;
                    proof {
                        assert(self@ =~= crate::manager::locked_marked(
                            old(self)@,
                        ).advanced_past_lock_state(now));
                    }
                }
            },
            Event::LoginctlUnlock => {
                let reset = self.reset(now, lock_alive);
                r.reset = Some(reset);
                r.wake_lock_watcher = true;
                r.wake_scheduler = true;
            },
        }
        r
    }
}

} // verus!
