//! The manager's transitions: the pause and inhibitor discipline, the
//! staged timeout check, the activity reset, and the action-run
//! decisions. Each function mutates the state and reports what the
//! daemon must do outside: commands to spawn, tasks to wake.

use vstd::prelude::*;
use crate::action::{IdleAction, IdleActionBlock, MAX_INSTANT, TS_BOUND};
use crate::config::StasisConfig;
use crate::process::ProcessInfo;
use crate::queue::{eligible, original_fire_time, wake_time, QueueModel, FIRE_BOUND};
use crate::state::{debounce_ms_of, ManagerState, StateModel};
use crate::text;

verus! {

/// The resume commands carried by a queue of fired actions, in order.
pub open spec fn resume_commands_of(q: Seq<IdleActionBlock>) -> Seq<String> {
    q.filter(|a: IdleActionBlock| a.resume_command is Some).map_values(
        |a: IdleActionBlock| a.resume_command.unwrap(),
    )
}

impl StateModel {
    /// The state after a manual or automatic pause. A manual pause sets
    /// the manual flag; an automatic pause registers one more inhibitor.
    /// Either way the pause flag follows the discipline.
    pub open spec fn paused_state(self, manual: bool) -> StateModel {
        if manual {
            StateModel { manually_paused: true, paused: true, ..self }
        } else {
            self.inhibited_state()
        }
    }

    /// The state with one more automatic inhibitor registered.
    pub open spec fn inhibited_state(self) -> StateModel {
        StateModel {
            active_inhibitor_count: if self.active_inhibitor_count < u32::MAX {
                (self.active_inhibitor_count + 1) as u32
            } else {
                u32::MAX
            },
            paused: true,
            ..self
        }
    }

    /// The state after a manual resume: the manual flag clears, and the
    /// pause flag stays only while inhibitors remain.
    pub open spec fn manually_resumed_state(self) -> StateModel {
        StateModel {
            manually_paused: false,
            paused: self.active_inhibitor_count > 0,
            ..self
        }
    }

    /// The state with the resume queue drained.
    pub open spec fn drained_state(self) -> StateModel {
        StateModel { queue: self.queue.with_resume_queue_cleared(), ..self }
    }

    /// The state with the instant actions marked as fired.
    pub open spec fn instants_done_state(self) -> StateModel {
        StateModel { queue: self.queue.with_instants_done(), ..self }
    }

    /// The state with the instant actions armed again.
    pub open spec fn instants_reset_state(self) -> StateModel {
        StateModel { queue: self.queue.with_instants_reset(), ..self }
    }

    /// The state after the queue was advanced past the lock stage.
    pub open spec fn advanced_past_lock_state(self, now: u64) -> StateModel {
        StateModel {
            lock_state: crate::state::LockState {
                post_advanced: true,
                last_advanced: Some(now),
                ..self.lock_state
            },
            ..self
        }
    }
}

impl ManagerState {
    /// Drain the resume queue; the returned commands must be spawned in
    /// this order.
    pub fn fire_resume_queue(&mut self) -> (r: Vec<String>)
        ensures
            r@ == resume_commands_of(old(self)@.queue.resume_queue),
            final(self)@ == old(self)@.drained_state(),
            old(self)@.inv() ==> final(self)@.inv(),
    {
        let mut out: Vec<String> = Vec::new();
        let mut i: usize = 0;
        let n = self.queue.resume_queue.len();
        while i < n
            invariant
                n == self.queue.resume_queue@.len(),
                self.queue.resume_queue@ == old(self).queue.resume_queue@,
                *self == *old(self),
                0 <= i <= n,
                out@ =~= resume_commands_of(self.queue.resume_queue@.subrange(0, i as int)),
            decreases n - i,
        {
            proof {
                reveal_with_fuel(Seq::filter, 2);
                assert(self.queue.resume_queue@.subrange(0, i + 1 as int).drop_last()
                    =~= self.queue.resume_queue@.subrange(0, i as int));
            }
            match &self.queue.resume_queue[i].resume_command {
                Some(cmd) => {
                    out.push(cmd.clone());
                    proof {
                        let pre = resume_commands_of(
                            self.queue.resume_queue@.subrange(0, i as int),
                        );
                        assert(resume_commands_of(
                            self.queue.resume_queue@.subrange(0, i + 1 as int),
                        ) =~= pre.push(
                            self.queue.resume_queue@[i as int].resume_command.unwrap(),
                        ));
                    }
                },
                None => {
                    proof {
                        assert(resume_commands_of(
                            self.queue.resume_queue@.subrange(0, i + 1 as int),
                        ) =~= resume_commands_of(
                            self.queue.resume_queue@.subrange(0, i as int),
                        ));
                    }
                },
            }
            i = i + 1;
        }
        proof {
            assert(self.queue.resume_queue@.subrange(
                0,
                self.queue.resume_queue@.len() as int,
            ) =~= self.queue.resume_queue@);
        }
        self.queue.clear_resume_queue();
        proof {
            assert(self@ =~= old(self)@.drained_state());
        }
        out
    }

    /// Pause the idle timers. A manual pause sets the manual flag; an
    /// automatic pause registers an inhibitor.
    pub fn pause(&mut self, manual: bool)
        ensures
            final(self)@ == old(self)@.paused_state(manual),
            old(self)@.inv() ==> final(self)@.inv(),
    {
        if manual {
            self.manually_paused = true;
            self.paused = true;
            proof {
                assert(self@ =~= old(self)@.paused_state(true));
            }
        } else {
            self.incr_active_inhibitor();
        }
    }

    /// Register one automatic reason to pause; the pause flag follows.
    pub fn incr_active_inhibitor(&mut self)
        ensures
            final(self)@ == old(self)@.inhibited_state(),
            old(self)@.inv() ==> final(self)@.inv(),
    {
        if self.active_inhibitor_count < u32::MAX {
            self.active_inhibitor_count = self.active_inhibitor_count + 1;
        }
        self.paused = true;
        proof {
            assert(self@ =~= old(self)@.inhibited_state());
        }
    }

    /// Resume from a manual pause: the manual flag clears, and the
    /// timers stay gated only while inhibitors remain.
    pub fn resume_manual(&mut self)
        ensures
            final(self)@ == old(self)@.manually_resumed_state(),
            old(self)@.inv() ==> final(self)@.inv(),
    {
        self.manually_paused = false;
        self.paused = self.active_inhibitor_count > 0;
        proof {
            assert(self@ =~= old(self)@.manually_resumed_state());
        }
    }

    /// Fire the instant actions once: when they are still armed, mark
    /// them fired and return them, in order, for the daemon to run;
    /// otherwise return nothing and leave the state unchanged.
    pub fn trigger_instant_actions(&mut self) -> (r: Vec<IdleActionBlock>)
        ensures
            old(self)@.queue.instants_triggered ==> (final(self)@ == old(self)@ && r@.len()
                == 0),
            !old(self)@.queue.instants_triggered ==> (final(self)@ == old(
                self,
            )@.instants_done_state() && r@ == old(self)@.queue.active().filter(
                |a: IdleActionBlock| a.spec_is_instant(),
            )),
            old(self)@.inv() ==> final(self)@.inv(),
    {
        if self.queue.instants_triggered {
            return Vec::new();
        }
        let r = self.queue.get_active_instant_actions();
        self.queue.instants_triggered = true;
        proof {
            assert(self@ =~= old(self)@.instants_done_state());
        }
        r
    }

    /// Arm the instant actions again, so the next trigger fires them.
    pub fn reset_instant_actions(&mut self)
        ensures
            final(self)@ == old(self)@.instants_reset_state(),
            old(self)@.inv() ==> final(self)@.inv(),
    {
        self.queue.reset_instant_actions();
        proof {
            assert(self@ =~= old(self)@.instants_reset_state());
        }
    }

    /// Record that the queue moved past the lock stage.
    pub fn advance_past_lock(&mut self, now: u64)
        ensures
            final(self)@ == old(self)@.advanced_past_lock_state(now),
            old(self)@.inv() ==> final(self)@.inv(),
    {
        self.lock_state.post_advanced = true;
        self.lock_state.last_advanced = Some(now);
        proof {
            assert(self@ =~= old(self)@.advanced_past_lock_state(now));
        }
    }

    /// The next instant the scheduler must wake for, or nothing while
    /// paused or with no eligible stage.
    pub fn next_action_instant(&self) -> (r: Option<u64>)
        requires
            self@.inv(),
        ensures
            (self@.paused || self@.manually_paused) ==> r is None,
            !(self@.paused || self@.manually_paused) ==> ((r is Some <==> exists|i: int|
                eligible(self@.queue, i, self@.lock_state.is_locked)) && (r matches Some(t)
                ==> t <= FIRE_BOUND && (exists|i: int|
                eligible(self@.queue, i, self@.lock_state.is_locked) && t == wake_time(
                    self@.queue,
                    i,
                    self@.last_activity,
                    self@.debounce,
                    self@.cfg.notify_before_action,
                    self@.cfg.notify_seconds_before,
                )) && (forall|i: int|
                eligible(self@.queue, i, self@.lock_state.is_locked) ==> t <= wake_time(
                    self@.queue,
                    i,
                    self@.last_activity,
                    self@.debounce,
                    self@.cfg.notify_before_action,
                    self@.cfg.notify_seconds_before,
                )))),
    {
        if self.paused || self.manually_paused {
            return None;
        }
        self.queue.next_action_time(
            self.lock_state.is_locked,
            self.last_activity,
            self.debounce,
            self.cfg.notify_before_action,
            self.cfg.notify_seconds_before,
        )
    }
}

/// The index of the first stage at or after `i` without a trigger
/// stamp, or the length when every stage carries one.
pub open spec fn first_untriggered_from(acts: Seq<IdleActionBlock>, i: int) -> int
    decreases acts.len() - i,
{
    if i < 0 || i >= acts.len() {
        acts.len() as int
    } else if acts[i].last_triggered is None {
        i
    } else {
        first_untriggered_from(acts, i + 1)
    }
}

pub proof fn lemma_first_untriggered_agree(acts: Seq<IdleActionBlock>, i: int, j: int)
    requires
        0 <= i <= j <= acts.len(),
        forall|k: int| i <= k < j ==> (#[trigger] acts[k]).last_triggered is Some,
        j < acts.len() ==> acts[j].last_triggered is None,
    ensures
        first_untriggered_from(acts, i) == if j < acts.len() {
            j
        } else {
            acts.len() as int
        },
    decreases j - i,
{
    if i < j {
        lemma_first_untriggered_agree(acts, i + 1, j);
    }
}

/// Where the activity reset probes for an instant: the first stage
/// without a stamp, or the last stage when all carry one.
pub open spec fn reset_probe_index(acts: Seq<IdleActionBlock>) -> int {
    let fu = first_untriggered_from(acts, 0);
    if fu < acts.len() {
        fu
    } else if acts.len() > 0 {
        acts.len() - 1
    } else {
        0
    }
}

/// Whether the activity reset stops early because the next stage to
/// fire is an instant action.
pub open spec fn reset_stops_at_instant(acts: Seq<IdleActionBlock>) -> bool {
    acts.len() > 0 && acts[reset_probe_index(acts)].spec_is_instant()
}

/// Whether an activity reset of this state stops at an instant stage:
/// decided on the queue as it stands right after stamps are cleared.
pub open spec fn spec_reset_stopped(m: StateModel) -> bool {
    let q1 = m.queue.with_notification_cleared().cleared_before_lock(m.lock_state.is_locked);
    let q2 = if !m.lock_state.is_locked {
        q1.with_index(0)
    } else {
        q1
    };
    reset_stops_at_instant(q2.active())
}

/// What an activity reset leaves behind. The daemon restores the
/// returned brightness, spawns the resume commands in order, and wakes
/// the scheduler unless the reset stopped at an instant stage.
pub struct ResetOutcome {
    pub restore_brightness: Option<u32>,
    pub brightness_device: Option<String>,
    pub resume_commands: Vec<String>,
    pub stopped_at_instant: bool,
}

/// The resume commands an activity reset at state `m` hands out: the
/// whole queue, unless the reset stops at an instant stage.
pub open spec fn reset_outcome_commands(m: StateModel) -> Seq<String> {
    if spec_reset_stopped(m) {
        Seq::empty()
    } else {
        resume_commands_of(m.queue.resume_queue)
    }
}

/// What an activity reset at state `m` reports back to the daemon.
pub open spec fn reset_outcome_matches(o: ResetOutcome, m: StateModel) -> bool {
    &&& o.restore_brightness == m.previous_brightness
    &&& o.brightness_device == m.brightness_device
    &&& o.stopped_at_instant == spec_reset_stopped(m)
    &&& o.resume_commands@ == reset_outcome_commands(m)
}

/// Whether releasing one inhibitor lets the timers resume: the last
/// one goes and no manual pause holds.
pub open spec fn decr_fires(m: StateModel) -> bool {
    m.active_inhibitor_count == 1 && !m.manually_paused
}

/// What the release of the last inhibitor reports: its reset plus the
/// drain that follows always hand out the whole resume queue.
pub open spec fn released_outcome_matches(o: ResetOutcome, m: StateModel) -> bool {
    &&& o.restore_brightness == m.previous_brightness
    &&& o.brightness_device == m.brightness_device
    &&& o.stopped_at_instant == spec_reset_stopped(m)
    &&& o.resume_commands@ == resume_commands_of(m.queue.resume_queue)
}

/// The state after an activity reset at `now`. `lock_alive` is what the
/// daemon's probe of the lock command reported (it matters only while
/// locked).
pub open spec fn spec_reset(m: StateModel, now: u64, lock_alive: bool) -> StateModel {
    let debounce_end = (now + debounce_ms_of(m.cfg.debounce_seconds)) as u64;
    let q1 = m.queue.with_notification_cleared().cleared_before_lock(m.lock_state.is_locked);
    let q2 = if !m.lock_state.is_locked {
        q1.with_index(0)
    } else {
        q1
    };
    let m2 = StateModel {
        last_activity: now,
        debounce: Some(debounce_end),
        previous_brightness: None,
        max_brightness: None,
        brightness_device: None,
        queue: q2,
        ..m
    };
    if reset_stops_at_instant(q2.active()) {
        m2
    } else if m.lock_state.is_locked && crate::state::first_lock_from(q2.active(), 0)
        < q2.active().len() && lock_alive {
        let li = crate::state::first_lock_from(q2.active(), 0);
        let ni = if li + 1 < q2.active().len() {
            li + 1
        } else {
            q2.active().len() - 1
        };
        let q3 = q2.with_index(ni as usize).with_active(
            q2.active().update(ni, crate::queue::stamped(q2.active()[ni], debounce_end)),
        );
        StateModel {
            queue: q3.with_resume_queue_cleared(),
            lock_state: crate::state::LockState { post_advanced: true, ..m.lock_state },
            ..m2
        }
    } else {
        StateModel { queue: q2.with_resume_queue_cleared(), ..m2 }
    }
}

impl ManagerState {
    /// React to real user activity: restore brightness, restart the
    /// activity clock and the debounce window, drop any pre-warn, clear
    /// the trigger stamps (preserving post-lock offsets while locked),
    /// rewind the cursor when unlocked, and — unless the next stage is
    /// an instant — bump past a live lock stage and drain the resume
    /// queue. `lock_alive` is the daemon's probe of the lock command
    /// (pass `true` when there is nothing to probe); it matters only
    /// while locked.
    #[verifier::rlimit(80)]
    pub fn reset(&mut self, now: u64, lock_alive: bool) -> (r: ResetOutcome)
        requires
            old(self)@.inv(),
            now <= MAX_INSTANT,
        ensures
            final(self)@ == spec_reset(old(self)@, now, lock_alive),
            final(self)@.inv(),
            reset_outcome_matches(r, old(self)@),
    {
        let restore_brightness = self.previous_brightness;
        let brightness_device = crate::action::clone_opt_string(&self.brightness_device);
        self.previous_brightness = None;
        self.max_brightness = None;
        self.brightness_device = None;
        let debounce_ms = (self.cfg.debounce_seconds as u64) * 1000;
        let debounce_end = now + debounce_ms;
        self.last_activity = now;
        self.debounce = Some(debounce_end);
        self.queue.clear_notification_state();
        let is_locked = self.lock_state.is_locked;
        self.queue.clear_triggered_before_lock(is_locked);
        if !is_locked {
            self.queue.reset_index();
        }
        let ghost q2 = self@.queue;
        let acts = self.queue.get_active_actions();
        let n = acts.len();
        let mut fu: usize = 0;
        while fu < n && acts[fu].last_triggered.is_some()
            invariant
                acts@ == q2.active(),
                n == acts@.len(),
                0 <= fu <= n,
                forall|k: int| 0 <= k < fu ==> (#[trigger] acts@[k]).last_triggered is Some,
            decreases n - fu,
        {
            fu = fu + 1;
        }
        proof {
            lemma_first_untriggered_agree(q2.active(), 0, fu as int);
        }
        let probe_idx: usize = if fu < n {
            fu
        } else if n > 0 {
            n - 1
        } else {
            0
        };
        let stopped = n > 0 && acts[probe_idx].is_instant();
        if stopped {
            proof {
                assert(self@ =~= spec_reset(old(self)@, now, lock_alive));
            }
            return ResetOutcome {
                restore_brightness,
                brightness_device,
                resume_commands: Vec::new(),
                stopped_at_instant: true,
            };
        }
        if is_locked {
            match self.queue.find_lock_index() {
                Some(li) => {
                    if lock_alive {
                        proof {
                            crate::state::lemma_first_lock_agree(q2.active(), 0, li as int);
                        }
                        let len = self.queue.get_active_actions().len();
                        let ni = if li + 1 < len {
                            li + 1
                        } else {
                            len - 1
                        };
                        self.queue.stamp_active(ni, debounce_end);
                        self.queue.set_index(ni);
                        self.lock_state.post_advanced = true;
                    }
                },
                None => {
                    proof {
                        crate::state::lemma_first_lock_agree(
                            q2.active(),
                            0,
                            q2.active().len() as int,
                        );
                    }
                },
            }
        }
        let resume_commands = self.fire_resume_queue();
        proof {
            assert(self@ =~= spec_reset(old(self)@, now, lock_alive));
        }
        ResetOutcome {
            restore_brightness,
            brightness_device,
            resume_commands,
            stopped_at_instant: false,
        }
    }

    /// The state after one automatic inhibitor is released.
    pub open spec fn spec_decr(m: StateModel, now: u64, lock_alive: bool) -> StateModel {
        if m.active_inhibitor_count == 0 {
            m
        } else {
            let c = (m.active_inhibitor_count - 1) as u32;
            let m1 = StateModel {
                active_inhibitor_count: c,
                paused: c > 0 || m.manually_paused,
                ..m
            };
            if c == 0 && !m.manually_paused {
                spec_reset(m1, now, lock_alive).drained_state()
            } else {
                m1
            }
        }
    }

    /// Release one automatic reason to pause. When the last inhibitor
    /// goes and no manual pause holds, the timers resume and the state
    /// reacts as to activity; the returned outcome then carries what the
    /// daemon must do. A release with no inhibitor registered changes
    /// nothing.
    pub fn decr_active_inhibitor(&mut self, now: u64, lock_alive: bool) -> (r: Option<
        ResetOutcome,
    >)
        requires
            old(self)@.inv(),
            now <= MAX_INSTANT,
        ensures
            final(self)@ == Self::spec_decr(old(self)@, now, lock_alive),
            final(self)@.inv(),
            (r is Some) == (old(self)@.active_inhibitor_count == 1 && !old(
                self,
            )@.manually_paused),
            (r matches Some(o) ==> released_outcome_matches(o, old(self)@)),
    {
        if self.active_inhibitor_count == 0 {
            return None;
        }
        self.active_inhibitor_count = self.active_inhibitor_count - 1;
        self.paused = self.active_inhibitor_count > 0 || self.manually_paused;
        if self.active_inhibitor_count == 0 && !self.manually_paused {
            let mut out = self.reset(now, lock_alive);
            let mut extra = self.fire_resume_queue();
            out.resume_commands.append(&mut extra);
            proof {
                assert(self@ =~= Self::spec_decr(old(self)@, now, lock_alive));
                assert(out.resume_commands@ =~= resume_commands_of(
                    old(self)@.queue.resume_queue,
                ));
            }
            Some(out)
        } else {
            proof {
                assert(self@ =~= Self::spec_decr(old(self)@, now, lock_alive));
            }
            None
        }
    }

    /// Resume the idle timers: manually, clearing the manual flag, or
    /// automatically, releasing one inhibitor.
    pub fn resume(&mut self, manual: bool, now: u64, lock_alive: bool) -> (r: Option<
        ResetOutcome,
    >)
        requires
            old(self)@.inv(),
            now <= MAX_INSTANT,
        ensures
            manual ==> final(self)@ == old(self)@.manually_resumed_state() && r is None,
            !manual ==> final(self)@ == Self::spec_decr(old(self)@, now, lock_alive),
            !manual ==> (r is Some) == (old(self)@.active_inhibitor_count == 1 && !old(
                self,
            )@.manually_paused),
            (r matches Some(o) ==> released_outcome_matches(o, old(self)@)),
            final(self)@.inv(),
    {
        if manual {
            self.resume_manual();
            None
        } else {
            self.decr_active_inhibitor(now, lock_alive)
        }
    }

    /// Flip the manual pause to the given position.
    pub fn toggle_state(&mut self, inhibit: bool, now: u64, lock_alive: bool) -> (r: Option<
        ResetOutcome,
    >)
        requires
            old(self)@.inv(),
            now <= MAX_INSTANT,
        ensures
            inhibit ==> final(self)@ == old(self)@.paused_state(true) && r is None,
            !inhibit ==> final(self)@ == old(self)@.manually_resumed_state() && r is None,
            final(self)@.inv(),
    {
        if inhibit {
            self.pause(true);
            None
        } else {
            self.resume(true, now, lock_alive)
        }
    }
}

/// What one scheduler tick decided.
pub enum CheckOutcome {
    /// The timers are paused; nothing was examined.
    Paused,
    /// The active block is empty.
    Empty,
    /// The current stage is the lock stage and the session is locked.
    LockSkipped,
    /// The cursor stood on an instant action, which never fires from the
    /// staged timeline; the cursor moved past it.
    InstantSkipped,
    /// The stage's fire instant has not arrived.
    NotYet,
    /// The pre-warn went out earlier and its delay is still running.
    AwaitingNotification,
    /// The pre-warn is due: the daemon must send the notification and
    /// wake the scheduler at `fire_at`.
    Notify { message: String, action_name: String, fire_at: u64 },
    /// The stage fired: the daemon must run the action.
    Fire { action: IdleActionBlock },
}

/// The cursor clamped into the active block.
pub open spec fn clamped_index(q: QueueModel) -> int {
    if q.action_index < q.active().len() {
        q.action_index as int
    } else {
        q.active().len() - 1
    }
}

/// Whether the pre-warn machinery applies to a stage.
pub open spec fn notify_applies(m: StateModel, a: IdleActionBlock) -> bool {
    m.cfg.notify_before_action && m.cfg.notify_seconds_before > 0 && a.notification is Some
}

/// The stage under the clamped cursor.
pub open spec fn spec_current_stage(m: StateModel) -> IdleActionBlock {
    m.queue.active()[clamped_index(m.queue)]
}

/// Whether the timers are gated by a pause.
pub open spec fn spec_gated(m: StateModel) -> bool {
    m.paused || m.manually_paused
}

/// The tick lands on a locked lock stage.
pub open spec fn spec_lock_skip_case(m: StateModel) -> bool {
    &&& !spec_gated(m)
    &&& m.queue.active().len() > 0
    &&& spec_current_stage(m).kind == IdleAction::LockScreen
    &&& m.lock_state.is_locked
}

/// The tick lands on an instant stage, which the staged path skips.
pub open spec fn spec_instant_skip_case(m: StateModel) -> bool {
    &&& !spec_gated(m)
    &&& m.queue.active().len() > 0
    &&& !spec_lock_skip_case(m)
    &&& spec_current_stage(m).spec_is_instant()
}

/// The tick examines a real stage of the timeline.
pub open spec fn spec_staged_case(m: StateModel) -> bool {
    &&& !spec_gated(m)
    &&& m.queue.active().len() > 0
    &&& !spec_lock_skip_case(m)
    &&& !spec_current_stage(m).spec_is_instant()
}

/// The current stage's fire instant, before any pre-warn delay.
pub open spec fn spec_stage_fire_time(m: StateModel) -> int {
    original_fire_time(m.queue.active(), clamped_index(m.queue), m.last_activity, m.debounce)
}

/// Whether the current stage's pre-warn already went out.
pub open spec fn spec_already_notified(m: StateModel) -> bool {
    m.queue.notification_sent_for_action == Some(clamped_index(m.queue) as usize)
}

/// Whether the pre-warn machinery applies to the current stage.
pub open spec fn spec_prewarn_applies(m: StateModel) -> bool {
    notify_applies(m, spec_current_stage(m))
}

/// The state after the stage under the cursor fired at `now`: the stage
/// is stamped, pre-warn state drops, the cursor advances (clamped), and
/// a non-lock action with a resume command joins the resume queue.
pub open spec fn spec_fired(m: StateModel, now: u64) -> StateModel {
    let acts = m.queue.active();
    let i = clamped_index(m.queue);
    let a = acts[i];
    let q1 = m.queue.with_active(acts.update(i, crate::queue::stamped(a, now)));
    let q2 = q1.with_notification_cleared().advanced().with_queued_resume(a);
    StateModel { queue: q2, ..m }
}

impl ManagerState {
    /// One scheduler tick at `now`: decide whether the stage under the
    /// cursor pre-warns, fires, or waits, per the staged-timeline rule.
    /// A stage that already fired at `t` cannot fire again before
    /// `t` plus its timeout; the lock stage never fires while locked;
    /// instant actions never fire here.
    #[verifier::rlimit(100)]
    pub fn check_timeouts(&mut self, now: u64) -> (r: CheckOutcome)
        requires
            old(self)@.inv(),
            now <= MAX_INSTANT,
        ensures
            final(self)@.inv(),
            (r is Paused) == spec_gated(old(self)@),
            (r is Paused) ==> final(self)@ == old(self)@,
            (r is Empty) == (!spec_gated(old(self)@) && old(self)@.queue.active().len() == 0),
            (r is Empty) ==> final(self)@ == old(self)@,
            (r is LockSkipped) == spec_lock_skip_case(old(self)@),
            (r is LockSkipped) ==> final(self)@ == old(self)@,
            (r is InstantSkipped) == spec_instant_skip_case(old(self)@),
            (r is InstantSkipped) ==> final(self)@ == (StateModel {
                queue: old(self)@.queue.advanced(),
                ..old(self)@
            }),
            (r is NotYet) == (spec_staged_case(old(self)@) && now < spec_stage_fire_time(
                old(self)@,
            ) && !(spec_prewarn_applies(old(self)@) && spec_already_notified(old(self)@))),
            (r is NotYet) ==> final(self)@ == old(self)@,
            (r is AwaitingNotification) == (spec_staged_case(old(self)@)
                && spec_prewarn_applies(old(self)@) && spec_already_notified(old(self)@)
                && now < spec_stage_fire_time(old(self)@) + old(self)@.cfg.notify_seconds_before
                * 1000),
            (r is AwaitingNotification) ==> final(self)@ == old(self)@,
            (r is Notify) == (spec_staged_case(old(self)@) && spec_prewarn_applies(old(self)@)
                && now >= spec_stage_fire_time(old(self)@) && !spec_already_notified(
                old(self)@,
            )),
            (r is Fire) == (spec_staged_case(old(self)@) && ((spec_prewarn_applies(old(self)@)
                && spec_already_notified(old(self)@) && now >= spec_stage_fire_time(old(self)@)
                + old(self)@.cfg.notify_seconds_before * 1000) || (!spec_prewarn_applies(
                old(self)@,
            ) && now >= spec_stage_fire_time(old(self)@)))),
            (r matches CheckOutcome::Notify { message, action_name, fire_at } ==> ({
                let acts = old(self)@.queue.active();
                let i = clamped_index(old(self)@.queue);
                let a = acts[i];
                &&& notify_applies(old(self)@, a)
                &&& now >= original_fire_time(acts, i, old(self)@.last_activity, old(self)@.debounce)
                &&& old(self)@.queue.notification_sent_for_action != Some(i as usize)
                &&& Some(message@) == (match a.notification {
                    Some(n) => Some(n@),
                    None => None,
                })
                &&& action_name@ == a.name@
                &&& fire_at == original_fire_time(acts, i, old(self)@.last_activity, old(self)@.debounce)
                    + old(self)@.cfg.notify_seconds_before * 1000
                &&& final(self)@ == (StateModel {
                    queue: old(self)@.queue.with_notification_sent(i as usize),
                    ..old(self)@
                })
            })),
            (r matches CheckOutcome::Fire { action } ==> ({
                let acts = old(self)@.queue.active();
                let i = clamped_index(old(self)@.queue);
                let a = acts[i];
                &&& action == a
                &&& !(a.kind == IdleAction::LockScreen && old(self)@.lock_state.is_locked)
                &&& a.timeout > 0
                &&& now >= original_fire_time(acts, i, old(self)@.last_activity, old(self)@.debounce)
                &&& (a.last_triggered matches Some(t) ==> now >= t + a.spec_timeout_ms())
                &&& final(self)@ == spec_fired(old(self)@, now)
            })),
    {
        if self.paused || self.manually_paused {
            return CheckOutcome::Paused;
        }
        let n = self.queue.get_active_actions().len();
        if n == 0 {
            return CheckOutcome::Empty;
        }
        let index: usize = if self.queue.action_index < n {
            self.queue.action_index
        } else {
            n - 1
        };
        let acts = self.queue.get_active_actions();
        let is_locked = self.lock_state.is_locked;
        if matches!(acts[index].kind, IdleAction::LockScreen) && is_locked {
            return CheckOutcome::LockSkipped;
        }
        if acts[index].is_instant() {
            self.queue.advance_index();
            proof {
                assert(self@ =~= (StateModel { queue: old(self)@.queue.advanced(), ..old(self)@ }));
            }
            return CheckOutcome::InstantSkipped;
        }
        let timeout = acts[index].timeout_ms();
        let base: u64 = match acts[index].last_triggered {
            Some(t) => t,
            None => {
                if index > 0 && acts[index - 1].last_triggered.is_some() {
                    match acts[index - 1].last_triggered {
                        Some(t) => t,
                        None => 0,  // unreachable: the arm above tested is_some
                    }
                } else if index == 0 {
                    match self.debounce {
                        Some(d) => if d >= self.last_activity {
                            d
                        } else {
                            self.last_activity
                        },
                        None => self.last_activity,
                    }
                } else {
                    self.last_activity
                }
            },
        };
        let original_fire = base + timeout;
        proof {
            assert(original_fire == original_fire_time(
                old(self)@.queue.active(),
                index as int,
                old(self)@.last_activity,
                old(self)@.debounce,
            ));
        }
        let notify_on = self.cfg.notify_before_action && self.cfg.notify_seconds_before > 0
            && acts[index].notification.is_some();
        if notify_on {
            let notify_ms = (self.cfg.notify_seconds_before as u64) * 1000;
            let actual_action_time = original_fire + notify_ms;
            let already = self.queue.notification_sent_for(index);
            if now >= original_fire && !already {
                let message = match &acts[index].notification {
                    Some(msg) => msg.clone(),
                    None => String::new(),  // unreachable: notify_on tested is_some
                };
                let action_name = acts[index].name.clone();
                self.queue.mark_notification_sent(index);
                return CheckOutcome::Notify { message, action_name, fire_at: actual_action_time };
            }
            if !already {
                return CheckOutcome::NotYet;
            }
            if now < actual_action_time {
                return CheckOutcome::AwaitingNotification;
            }
        } else {
            if now < original_fire {
                return CheckOutcome::NotYet;
            }
        }
        let action = acts[index].clone();
        let for_queue = acts[index].clone();
        self.queue.stamp_active(index, now);
        self.queue.clear_notification_state();
        self.queue.advance_index();
        self.queue.queue_resume(for_queue);
        proof {
            assert(self@ =~= spec_fired(old(self)@, now));
        }
        CheckOutcome::Fire { action }
    }
}

/// What running one action comes down to, after the state reacted.
pub enum RunActionOutcome {
    /// A lock that goes through `loginctl lock-session`: spawn it and
    /// let the resulting lock signal drive the state.
    LoginctlLock { command: String },
    /// A lock action while the session is already locked: nothing to do.
    SkippedAlreadyLocked,
    /// The probes found a locker already running: the lock flag was
    /// still recorded, but nothing is spawned.
    SkippedLockProbe { probe_command: String },
    /// Spawn the lock command detached and hand the process back to
    /// `record_lock_process`.
    RunLock { command: String },
    /// A suspend action: spawn the pre-suspend command (when set), wait
    /// half a second, then run the suspend command (when not blank).
    RunSuspend { pre_suspend_command: Option<String>, command: Option<String> },
    /// Any other action: capture brightness first when asked, then run
    /// the command (when not blank) as a background task.
    RunCommand { command: Option<String>, capture_brightness: bool },
}

/// The state with the session marked locked.
pub open spec fn locked_marked(m: StateModel) -> StateModel {
    StateModel {
        lock_state: crate::state::LockState { is_locked: true, ..m.lock_state },
        ..m
    }
}

impl ManagerState {
    /// Decide how to run one action. For a lock action the caller
    /// passes what logind reported and whether the probe command's
    /// process runs; a lock action that really starts marks the session
    /// locked before its command is spawned, and the daemon must wake
    /// the lock supervisor whenever the decision is `SkippedLockProbe`
    /// or `RunLock`.
    pub fn run_action_decide(
        &mut self,
        action: &IdleActionBlock,
        logind_locked: Option<bool>,
        probe_running: bool,
    ) -> (r: RunActionOutcome)
        ensures
            old(self)@.inv() ==> final(self)@.inv(),
            (r matches RunActionOutcome::LoginctlLock { command } ==> action.kind
                == IdleAction::LockScreen && command@ == action.command@ && final(self)@ == old(
                self,
            )@),
            (r is SkippedAlreadyLocked ==> action.kind == IdleAction::LockScreen && old(
                self,
            )@.lock_state.is_locked && final(self)@ == old(self)@),
            (r matches RunActionOutcome::SkippedLockProbe { probe_command } ==> action.kind
                == IdleAction::LockScreen && final(self)@ == locked_marked(old(self)@)
                && probe_command == crate::process::lock_probe_command(*action)),
            (r matches RunActionOutcome::RunLock { command } ==> action.kind
                == IdleAction::LockScreen && command == action.command && final(self)@
                == locked_marked(old(self)@)),
            (action.kind == IdleAction::LockScreen && !text::contains_seq(
                action.command@,
                "loginctl lock-session"@,
            ) && !old(self)@.lock_state.is_locked ==> final(self)@ == locked_marked(old(
                self,
            )@)),
            (r matches RunActionOutcome::RunSuspend { pre_suspend_command, command } ==> ({
                &&& action.kind == IdleAction::Suspend
                &&& pre_suspend_command == old(self)@.pre_suspend_command
                &&& command == (if crate::text::trim_of(action.command@).len() == 0 {
                    Option::<String>::None
                } else {
                    Some(action.command)
                })
                &&& final(self)@ == old(self)@
            })),
            (r matches RunActionOutcome::RunCommand { command, capture_brightness } ==> ({
                &&& action.kind != IdleAction::LockScreen && action.kind != IdleAction::Suspend
                &&& command == (if crate::text::trim_of(action.command@).len() == 0 {
                    Option::<String>::None
                } else {
                    Some(action.command)
                })
                &&& capture_brightness == (action.kind == IdleAction::Brightness && old(
                    self,
                )@.previous_brightness is None)
                &&& final(self)@ == old(self)@
            })),
            (action.kind == IdleAction::LockScreen && text::contains_seq(
                action.command@,
                "loginctl lock-session"@,
            )) ==> r is LoginctlLock,
            (action.kind == IdleAction::LockScreen && !text::contains_seq(
                action.command@,
                "loginctl lock-session"@,
            ) && old(self)@.lock_state.is_locked) ==> r is SkippedAlreadyLocked,
            (action.kind == IdleAction::LockScreen && !text::contains_seq(
                action.command@,
                "loginctl lock-session"@,
            ) && !old(self)@.lock_state.is_locked) ==> ((r is SkippedLockProbe) == (
            logind_locked == Some(true) || probe_running) && (r is RunLock) == !(logind_locked
                == Some(true) || probe_running)),
            (action.kind == IdleAction::Suspend) ==> r is RunSuspend,
            (action.kind != IdleAction::LockScreen && action.kind != IdleAction::Suspend)
                ==> r is RunCommand,
    {
        if matches!(action.kind, IdleAction::LockScreen) {
            if text::contains_str(action.command.as_str(), "loginctl lock-session") {
                return RunActionOutcome::LoginctlLock { command: action.command.clone() };
            }
            if self.lock_state.is_locked {
                return RunActionOutcome::SkippedAlreadyLocked;
            }
            self.lock_state.is_locked = true;
            proof {
                assert(self@ =~= locked_marked(old(self)@));
            }
            let requests = crate::process::prepare_action(action, logind_locked, probe_running);
            if requests.len() > 0 && matches!(&requests[0], crate::process::ActionRequest::Skip(_)) {
                let probe_command = match &action.lock_command {
                    Some(c) => c.clone(),
                    None => action.command.clone(),
                };
                return RunActionOutcome::SkippedLockProbe { probe_command };
            }
            return RunActionOutcome::RunLock { command: action.command.clone() };
        }
        let command: Option<String> = if text::trim_str(action.command.as_str()).unicode_len()
            > 0 {
            Some(action.command.clone())
        } else {
            None
        };
        if matches!(action.kind, IdleAction::Suspend) {
            let pre_suspend_command = crate::action::clone_opt_string(&self.pre_suspend_command);
            return RunActionOutcome::RunSuspend { pre_suspend_command, command };
        }
        let capture_brightness = matches!(action.kind, IdleAction::Brightness)
            && self.previous_brightness.is_none();
        RunActionOutcome::RunCommand { command, capture_brightness }
    }

    /// Record the lock process the daemon spawned: the action's
    /// `lock_command`, when set, overrides the expected process name,
    /// and the session counts as locked.
    pub fn record_lock_process(&mut self, info: ProcessInfo, name_override: Option<String>)
        ensures
            final(self)@ == (StateModel {
                lock_state: crate::state::LockState {
                    is_locked: true,
                    process_info: Some(
                        ProcessInfo {
                            expected_process_name: (match name_override {
                                Some(n) => Some(n),
                                None => info.expected_process_name,
                            }),
                            ..info
                        },
                    ),
                    ..old(self)@.lock_state
                },
                ..old(self)@
            }),
            old(self)@.inv() ==> final(self)@.inv(),
    {
        let ghost info0 = info;
        let ghost override0 = name_override;
        let mut stored = info;
        match name_override {
            Some(n) => {
                stored.expected_process_name = Some(n);
            },
            None => {},
        }
        self.lock_state.process_info = Some(stored);
        self.lock_state.is_locked = true;
        proof {
            assert(self@ =~= (StateModel {
                lock_state: crate::state::LockState {
                    is_locked: true,
                    process_info: Some(
                        ProcessInfo {
                            expected_process_name: (match override0 {
                                Some(n) => Some(n),
                                None => info0.expected_process_name,
                            }),
                            ..info0
                        },
                    ),
                    ..old(self)@.lock_state
                },
                ..old(self)@
            }));
        }
    }

    /// Fire every action of the active block by hand: lock stages are
    /// skipped while locked, every stage is stamped at `now`, and the
    /// cursor lands on the last stage. The returned actions must be run
    /// in order.
    pub fn trigger_all_idle_actions(&mut self, now: u64) -> (r: Vec<IdleActionBlock>)
        requires
            old(self)@.inv(),
            now <= MAX_INSTANT,
        ensures
            final(self)@.inv(),
            r@ == old(self)@.queue.active().filter(
                |a: IdleActionBlock|
                    !(a.kind == IdleAction::LockScreen && old(self)@.lock_state.is_locked),
            ),
            final(self)@ == (StateModel {
                queue: old(self)@.queue.with_active(
                    old(self)@.queue.active().map(
                        |i: int, a: IdleActionBlock| crate::queue::stamped(a, now),
                    ),
                ).with_index(
                    if old(self)@.queue.active().len() > 0 {
                        (old(self)@.queue.active().len() - 1) as usize
                    } else {
                        0usize
                    },
                ),
                ..old(self)@
            }),
    {
        let acts = self.queue.get_active_actions();
        let is_locked = self.lock_state.is_locked;
        let mut to_run: Vec<IdleActionBlock> = Vec::new();
        let mut i: usize = 0;
        while i < acts.len()
            invariant
                acts@ == old(self)@.queue.active(),
                0 <= i <= acts@.len(),
                to_run@ =~= acts@.subrange(0, i as int).filter(
                    |a: IdleActionBlock|
                        !(a.kind == IdleAction::LockScreen && is_locked),
                ),
            decreases acts@.len() - i,
        {
            proof {
                reveal_with_fuel(Seq::filter, 2);
                assert(acts@.subrange(0, i + 1 as int).drop_last() =~= acts@.subrange(
                    0,
                    i as int,
                ));
            }
            if !(matches!(acts[i].kind, IdleAction::LockScreen) && is_locked) {
                to_run.push(acts[i].clone());
            }
            i = i + 1;
        }
        proof {
            assert(acts@.subrange(0, acts@.len() as int) =~= acts@);
        }
        let n = self.queue.get_active_actions().len();
        self.queue.stamp_all_active(now);
        if n > 0 {
            self.queue.set_index(n - 1);
        } else {
            self.queue.set_index(0);
        }
        proof {
            assert(self@ =~= (StateModel {
                queue: old(self)@.queue.with_active(
                    old(self)@.queue.active().map(
                        |j: int, a: IdleActionBlock| crate::queue::stamped(a, now),
                    ),
                ).with_index(
                    if old(self)@.queue.active().len() > 0 {
                        (old(self)@.queue.active().len() - 1) as usize
                    } else {
                        0usize
                    },
                ),
                ..old(self)@
            }));
        }
        to_run
    }

    /// Reconcile the MPRIS media flag with a fresh check: a change to
    /// playing registers an inhibitor, a change to silent releases one
    /// (which may reset the timers; the outcome then says what to do).
    pub fn recheck_media(&mut self, playing: bool, now: u64, lock_alive: bool) -> (r: Option<
        ResetOutcome,
    >)
        requires
            old(self)@.inv(),
            now <= MAX_INSTANT,
        ensures
            final(self)@.inv(),
            (playing == old(self)@.media_playing) ==> final(self)@ == old(self)@ && r is None,
            (playing && !old(self)@.media_playing) ==> final(self)@ == (StateModel {
                media_playing: true,
                ..old(self)@.inhibited_state()
            }) && r is None,
            (!playing && old(self)@.media_playing) ==> final(self)@ == (StateModel {
                media_playing: false,
                ..Self::spec_decr(old(self)@, now, lock_alive)
            }),
            (r is Some) == (!playing && old(self)@.media_playing && old(
                self,
            )@.active_inhibitor_count == 1 && !old(self)@.manually_paused),
            (r matches Some(o) ==> released_outcome_matches(o, old(self)@)),
    {
        if playing && !self.media_playing {
            self.incr_active_inhibitor();
            self.media_playing = true;
            proof {
                assert(self@ =~= (StateModel { media_playing: true, ..old(self)@.inhibited_state() }));
            }
            None
        } else if !playing && self.media_playing {
            let r = self.decr_active_inhibitor(now, lock_alive);
            self.media_playing = false;
            proof {
                assert(self@ =~= (StateModel {
                    media_playing: false,
                    ..Self::spec_decr(old(self)@, now, lock_alive)
                }));
            }
            r
        } else {
            None
        }
    }
}

/// The state after a configuration reload at `now`: blocks rebuilt with
/// stamps cleared, the block aligned with chassis and power, cursor and
/// instants and pre-warn state reset, the lock lifecycle rebuilt, and
/// the activity clock restarted.
pub open spec fn spec_update_from_config(
    m: StateModel,
    cfg: crate::config::ConfigModel,
    now: u64,
) -> StateModel {
    let q1 = m.queue.with_blocks_rebuilt(cfg.actions).with_index(0);
    let m1 = StateModel { queue: q1, cfg, ..m };
    let q2 = if m1.wanted_block() != q1.current_block {
        q1.switched(m1.wanted_block())
    } else {
        q1
    };
    let q3 = q2.with_index(0).with_instants_reset().with_notification_cleared();
    StateModel {
        queue: q3,
        cfg,
        lock_state: crate::state::LockState {
            is_locked: false,
            process_info: None,
            command: crate::state::spec_lock_command_of(cfg.actions),
            last_advanced: None,
            post_advanced: false,
        },
        last_activity: now,
        debounce: Some((now + debounce_ms_of(cfg.debounce_seconds)) as u64),
        previous_brightness: None,
        pre_suspend_command: cfg.pre_suspend_command,
        active_flags: crate::state::ActiveFlags {
            pre_suspend_triggered: false,
            brightness_captured: false,
        },
        ..m
    }
}

impl ManagerState {
    /// Take a freshly loaded configuration: rebuild the blocks, align
    /// the active block with the power state, clear every stamp and
    /// pre-warn, rebuild the lock lifecycle, and restart the activity
    /// clock. The daemon wakes the scheduler afterwards.
    #[verifier::rlimit(60)]
    pub fn update_from_config(&mut self, cfg: StasisConfig, now: u64)
        requires
            old(self)@.inv(),
            now <= MAX_INSTANT,
        ensures
            final(self)@ == spec_update_from_config(old(self)@, cfg@, now),
            final(self)@.inv(),
    {
        let ghost cfgm = cfg@;
        self.queue.rebuild_blocks(&cfg);
        self.queue.reset_index();
        self.lock_state = crate::state::LockState::from_config(&cfg);
        let debounce_ms = (cfg.debounce_seconds as u64) * 1000;
        self.pre_suspend_command = crate::action::clone_opt_string(&cfg.pre_suspend_command);
        self.cfg = cfg;
        self.update_current_block();
        self.queue.reset_index();
        self.queue.reset_instant_actions();
        self.queue.clear_notification_state();
        self.last_activity = now;
        self.debounce = Some(now + debounce_ms);
        self.previous_brightness = None;
        self.active_flags = crate::state::ActiveFlags {
            pre_suspend_triggered: false,
            brightness_captured: false,
        };
        proof {
            assert(self@ =~= spec_update_from_config(old(self)@, cfgm, now));
        }
    }
}

} // verus!
